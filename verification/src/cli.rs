//! What the command line shows about switching providers.
use vstd::prelude::*;
use crate::provider::ProviderPrice;

verus! {

/// The endpoint shown for a provider: its first, or nothing.
pub fn primary_endpoint(p: &ProviderPrice) -> (r: String)
    ensures
        p.endpoints@.len() > 0 ==> r@ == p.endpoints@[0]@,
        p.endpoints@.len() == 0 ==> r@ == Seq::<char>::empty(),
{
    if p.endpoints.len() > 0 {
        p.endpoints[0].clone()
    } else {
        String::new()
    }
}

/// The steps for moving the model `model` to the provider `to`: none where
/// `to` has no endpoint, else four, the first naming its first endpoint.
pub fn migration_steps(model: &str, to: &ProviderPrice) -> (r: Vec<String>)
    ensures
        to.endpoints@.len() == 0 ==> r@.len() == 0,
        to.endpoints@.len() > 0 ==> {
            &&& r@.len() == 4
            &&& r@[0]@ == "  1. Set base URL:  "@ + to.endpoints@[0]@
            &&& r@[1]@ == "  2. Set API key (from provider dashboard)"@
            &&& r@[2]@ == "  3. Update model id to '"@ + model@ + "'"@
            &&& r@[3]@ == "  4. Validate: cloudfits cost --model "@ + model@ + " --provider "@
                + to.name@
        },
{
    let mut r: Vec<String> = Vec::new();
    if to.endpoints.len() == 0 {
        return r;
    }
    let mut first = "  1. Set base URL:  ".to_owned();
    first.append(to.endpoints[0].as_str());
    let second = "  2. Set API key (from provider dashboard)".to_owned();
    let mut third = "  3. Update model id to '".to_owned();
    third.append(model);
    third.append("'");
    let mut fourth = "  4. Validate: cloudfits cost --model ".to_owned();
    fourth.append(model);
    fourth.append(" --provider ");
    fourth.append(to.name.as_str());
    r.push(first);
    r.push(second);
    r.push(third);
    r.push(fourth);
    r
}

} // verus!
