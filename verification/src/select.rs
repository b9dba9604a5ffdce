//! Choosing providers from a list: by name, by kind, and for a web request.
use vstd::prelude::*;
use crate::provider::{kind_label, lemma_label_injective, ProviderKind, ProviderPrice};
use crate::text::{chars_of, contains, has_substring, lowercase_of, occurs_at, same_text, to_lowercase};

verus! {

/// A provider name that matches no provider.
#[derive(Debug)]
pub enum ProviderError {
    UnknownProvider(String),
}

/// The characters of each string.
pub open spec fn texts(v: Seq<String>) -> Seq<Seq<char>> {
    v.map_values(|s: String| s@)
}

/// The providers' names, lower-cased.
pub open spec fn lowered_names(ps: Seq<ProviderPrice>) -> Seq<Seq<char>> {
    ps.map_values(|p: ProviderPrice| lowercase_of(p.name@))
}

/// Either name contains the other.
pub open spec fn names_related(a: Seq<char>, b: Seq<char>) -> bool {
    has_substring(a, b) || has_substring(b, a)
}

/// `i` is the first index whose name is `q`.
pub open spec fn first_equal(names: Seq<Seq<char>>, q: Seq<char>, i: int) -> bool {
    &&& 0 <= i < names.len()
    &&& names[i] == q
    &&& forall|j: int| 0 <= j < i ==> names[j] != q
}

pub open spec fn none_equal(names: Seq<Seq<char>>, q: Seq<char>) -> bool {
    forall|j: int| 0 <= j < names.len() ==> names[j] != q
}

/// `i` is the first index whose name contains `q` or is contained in it.
pub open spec fn first_related(names: Seq<Seq<char>>, q: Seq<char>, i: int) -> bool {
    &&& 0 <= i < names.len()
    &&& names_related(names[i], q)
    &&& forall|j: int| 0 <= j < i ==> !names_related(names[j], q)
}

pub open spec fn none_related(names: Seq<Seq<char>>, q: Seq<char>) -> bool {
    forall|j: int| 0 <= j < names.len() ==> !names_related(names[j], q)
}

/// Looking `q` up among `names` gives index `i`: the first name equal to `q`,
/// or, where there is none, the first name related to `q`.
pub open spec fn name_lookup(names: Seq<Seq<char>>, q: Seq<char>, i: int) -> bool {
    first_equal(names, q, i) || (none_equal(names, q) && first_related(names, q, i))
}

/// A name contains `q` or is `q`.
pub open spec fn api_related(name: Seq<char>, q: Seq<char>) -> bool {
    name == q || has_substring(name, q)
}

/// `i` is the first index whose name is `q` or contains it.
pub open spec fn first_api_match(names: Seq<Seq<char>>, q: Seq<char>, i: int) -> bool {
    &&& 0 <= i < names.len()
    &&& api_related(names[i], q)
    &&& forall|j: int| 0 <= j < i ==> !api_related(names[j], q)
}

pub open spec fn no_api_match(names: Seq<Seq<char>>, q: Seq<char>) -> bool {
    forall|j: int| 0 <= j < names.len() ==> !api_related(names[j], q)
}

/// The providers' names in lower case.
pub fn lowercase_names(providers: &[ProviderPrice]) -> (r: Vec<String>)
    ensures
        texts(r@) == lowered_names(providers@),
{
    let mut r: Vec<String> = Vec::new();
    let mut i: usize = 0;
    while i < providers.len()
        invariant
            i <= providers@.len(),
            r@.len() == i,
            forall|j: int| 0 <= j < i ==> r@[j]@ == lowercase_of(providers@[j].name@),
        decreases providers.len() - i,
    {
        let l = to_lowercase(providers[i].name.as_str());
        r.push(l);
        i = i + 1;
    }
    assert(texts(r@) =~= lowered_names(providers@));
    r
}

/// The first of the (lower-case) `names` that equals `query`.
pub fn find_exact_lowercase(names: &Vec<String>, query: &str) -> (r: Option<usize>)
    ensures
        match r {
            Some(i) => first_equal(texts(names@), query@, i as int),
            None => none_equal(texts(names@), query@),
        },
{
    let ghost ns = texts(names@);
    let mut i: usize = 0;
    while i < names.len()
        invariant
            i <= names.len(),
            ns == texts(names@),
            forall|j: int| 0 <= j < i ==> ns[j] != query@,
        decreases names.len() - i,
    {
        if same_text(names[i].as_str(), query) {
            return Some(i);
        }
        i = i + 1;
    }
    None
}

fn related_names(a: &Vec<char>, b: &Vec<char>) -> (r: bool)
    ensures
        r == names_related(a@, b@),
{
    contains(a, b) || contains(b, a)
}

/// Looks `query` up among the (lower-case) `names`: the first name equal to
/// it, else the first name that contains it or is contained in it.
pub fn find_provider_lowercase(names: &Vec<String>, query: &str) -> (r: Option<usize>)
    ensures
        match r {
            Some(i) => name_lookup(texts(names@), query@, i as int),
            None => none_related(texts(names@), query@),
        },
{
    let ghost ns = texts(names@);
    match find_exact_lowercase(names, query) {
        Some(i) => {
            return Some(i);
        },
        None => {},
    }
    let q = chars_of(query);
    let mut i: usize = 0;
    while i < names.len()
        invariant
            i <= names.len(),
            ns == texts(names@),
            q@ == query@,
            none_equal(ns, query@),
            forall|j: int| 0 <= j < i ==> !names_related(ns[j], query@),
        decreases names.len() - i,
    {
        let n = chars_of(names[i].as_str());
        if related_names(&n, &q) {
            return Some(i);
        }
        i = i + 1;
    }
    None
}

/// Finds a provider by name, ignoring case: the one whose name equals `name`,
/// else the first whose name contains `name` or is contained in it.
pub fn find_provider<'a>(providers: &'a [ProviderPrice], name: &str) -> (r: Result<
    &'a ProviderPrice,
    ProviderError,
>)
    ensures
        match r {
            Ok(p) => exists|i: int|
                name_lookup(lowered_names(providers@), lowercase_of(name@), i) && *p
                    == #[trigger] providers@[i],
            Err(ProviderError::UnknownProvider(n)) => n@ == name@ && none_related(
                lowered_names(providers@),
                lowercase_of(name@),
            ),
        },
{
    let names = lowercase_names(providers);
    let q = to_lowercase(name);
    match find_provider_lowercase(&names, q.as_str()) {
        Some(i) => Ok(&providers[i]),
        None => Err(ProviderError::UnknownProvider(name.to_owned())),
    }
}

/// Finds the provider whose name equals `name`, ignoring case.
pub fn find_provider_exact<'a>(providers: &'a [ProviderPrice], name: &str) -> (r: Result<
    &'a ProviderPrice,
    ProviderError,
>)
    ensures
        match r {
            Ok(p) => exists|i: int|
                first_equal(lowered_names(providers@), lowercase_of(name@), i) && *p
                    == #[trigger] providers@[i],
            Err(ProviderError::UnknownProvider(n)) => n@ == name@ && none_equal(
                lowered_names(providers@),
                lowercase_of(name@),
            ),
        },
{
    let names = lowercase_names(providers);
    let q = to_lowercase(name);
    match find_exact_lowercase(&names, q.as_str()) {
        Some(i) => Ok(&providers[i]),
        None => Err(ProviderError::UnknownProvider(name.to_owned())),
    }
}

/// The first of the (lower-case) `names` that equals `query` or contains it.
pub fn find_api_match_lowercase(names: &Vec<String>, query: &str) -> (r: Option<usize>)
    ensures
        match r {
            Some(i) => first_api_match(texts(names@), query@, i as int),
            None => no_api_match(texts(names@), query@),
        },
{
    let ghost ns = texts(names@);
    let q = chars_of(query);
    let mut i: usize = 0;
    while i < names.len()
        invariant
            i <= names.len(),
            ns == texts(names@),
            q@ == query@,
            forall|j: int| 0 <= j < i ==> !api_related(ns[j], query@),
        decreases names.len() - i,
    {
        let n = chars_of(names[i].as_str());
        if same_text(names[i].as_str(), query) || contains(&n, &q) {
            return Some(i);
        }
        i = i + 1;
    }
    None
}

/// The provider that a web request for a cost estimate is answered with: the
/// first whose name, ignoring case, equals the requested one or contains
/// it; the first provider where none does or none was requested.
pub fn select_api_provider<'a>(providers: &'a [ProviderPrice], query: Option<&str>) -> (r:
    &'a ProviderPrice)
    requires
        providers.len() > 0,
    ensures
        match query {
            None => *r == providers@[0],
            Some(q) => (exists|i: int|
                first_api_match(lowered_names(providers@), lowercase_of(q@), i) && *r
                    == #[trigger] providers@[i]) || (no_api_match(
                lowered_names(providers@),
                lowercase_of(q@),
            ) && *r == providers@[0]),
        },
{
    match query {
        None => &providers[0],
        Some(q) => {
            let names = lowercase_names(providers);
            let lq = to_lowercase(q);
            match find_api_match_lowercase(&names, lq.as_str()) {
                Some(i) => &providers[i],
                None => &providers[0],
            }
        },
    }
}

/// The model a web request asks about: the one it names, else
/// "llama-3.1-8b-instruct".
pub fn requested_model(model: Option<String>) -> (r: String)
    ensures
        match model {
            Some(m) => r@ == m@,
            None => r@ == "llama-3.1-8b-instruct"@,
        },
{
    match model {
        Some(m) => m,
        None => "llama-3.1-8b-instruct".to_owned(),
    }
}

/// The providers whose kind has the label `label`, in their order.
pub fn filter_providers_by_label(providers: Vec<ProviderPrice>, label: &str) -> (r: Vec<
    ProviderPrice,
>)
    ensures
        r@ == providers@.filter(|p: ProviderPrice| kind_label(p.kind) == label@),
{
    let ghost pred = |p: ProviderPrice| kind_label(p.kind) == label@;
    let ghost all = providers@;
    let mut r: Vec<ProviderPrice> = Vec::new();
    for p in it: providers.into_iter()
        invariant
            it.seq() == all,
            pred == (|p: ProviderPrice| kind_label(p.kind) == label@),
            r@ == all.take(it.index() as int).filter(pred),
    {
        let ghost k = it.index() as int;
        assert(all.take(k + 1).drop_last() =~= all.take(k));
        reveal_with_fuel(Seq::<_>::filter, 1);
        if same_text(p.kind.label(), label) {
            r.push(p);
        }
    }
    assert(all.take(all.len() as int) =~= all);
    r
}

/// The providers that a local run is compared against: all but the local
/// ones, in their order.
pub fn remote_providers(providers: Vec<ProviderPrice>) -> (r: Vec<ProviderPrice>)
    ensures
        r@ == providers@.filter(|p: ProviderPrice| p.kind != ProviderKind::Local),
{
    let ghost pred = |p: ProviderPrice| p.kind != ProviderKind::Local;
    let ghost all = providers@;
    let mut r: Vec<ProviderPrice> = Vec::new();
    for p in it: providers.into_iter()
        invariant
            it.seq() == all,
            pred == (|p: ProviderPrice| p.kind != ProviderKind::Local),
            r@ == all.take(it.index() as int).filter(pred),
    {
        let ghost k = it.index() as int;
        assert(all.take(k + 1).drop_last() =~= all.take(k));
        reveal_with_fuel(Seq::<_>::filter, 1);
        if p.kind != ProviderKind::Local {
            r.push(p);
        }
    }
    assert(all.take(all.len() as int) =~= all);
    r
}

/// The providers of the kind labelled `kind` (compared in lower case), or all
/// of them where no kind is given.
pub fn filter_providers_by_kind(providers: Vec<ProviderPrice>, kind: Option<&str>) -> (r: Vec<
    ProviderPrice,
>)
    ensures
        match kind {
            None => r@ == providers@,
            Some(k) => r@ == providers@.filter(
                |p: ProviderPrice| kind_label(p.kind) == lowercase_of(k@),
            ),
        },
{
    match kind {
        None => providers,
        Some(k) => {
            let lk = to_lowercase(k);
            filter_providers_by_label(providers, lk.as_str())
        },
    }
}

// ---------------------------------------------------------------------------
// Laws of the lookups
// ---------------------------------------------------------------------------

/// A lookup by name gives at most one provider.
pub proof fn lemma_name_lookup_unique(names: Seq<Seq<char>>, q: Seq<char>, i: int, k: int)
    requires
        name_lookup(names, q, i),
        name_lookup(names, q, k),
    ensures
        i == k,
{
}

/// A name that equals the query is found, and the first such name wins over
/// every name that merely contains the query or is contained in it.
pub proof fn lemma_equal_name_wins(names: Seq<Seq<char>>, q: Seq<char>, i: int)
    requires
        first_equal(names, q, i),
    ensures
        name_lookup(names, q, i),
        !none_related(names, q),
{
    assert(occurs_at(names[i], q, 0)) by {
        assert(names[i].subrange(0, q.len() as int) =~= q);
    }
}

/// Filtering by the label of a kind keeps exactly the providers of that kind.
pub proof fn lemma_filter_by_label_is_by_kind(ps: Seq<ProviderPrice>, k: ProviderKind)
    ensures
        ps.filter(|p: ProviderPrice| kind_label(p.kind) == kind_label(k)) == ps.filter(
            |p: ProviderPrice| p.kind == k,
        ),
{
    let by_label = |p: ProviderPrice| kind_label(p.kind) == kind_label(k);
    let by_kind = |p: ProviderPrice| p.kind == k;
    assert forall|p: ProviderPrice| #[trigger] by_label(p) == by_kind(p) by {
        lemma_label_injective(p.kind, k);
    }
    assert(by_label =~= by_kind);
}

} // verus!
