use vstd::prelude::*;

verus! {

use ProviderKind::{Api, Cloud, GpuRental, Local};

/// How an inference provider is offered.
#[derive(Clone, Copy, Debug, PartialEq, Eq, Structural)]
pub enum ProviderKind {
    Cloud,
    Api,
    Local,
    GpuRental,
}

/// The text by which a kind is shown and filtered.
pub open spec fn kind_label(kind: ProviderKind) -> Seq<char> {
    match kind {
        ProviderKind::Cloud => "cloud"@,
        ProviderKind::Api => "api"@,
        ProviderKind::Local => "local"@,
        ProviderKind::GpuRental => "gpu-rental"@,
    }
}

impl ProviderKind {
    /// The lower-case label of this kind.
    pub fn label(&self) -> (r: &'static str)
        ensures
            r@ == kind_label(*self),
    {
        match self {
            ProviderKind::Cloud => "cloud",
            ProviderKind::Api => "api",
            ProviderKind::Local => "local",
            ProviderKind::GpuRental => "gpu-rental",
        }
    }
}

/// Distinct kinds have distinct labels, so a label names one kind.
pub proof fn lemma_label_injective(a: ProviderKind, b: ProviderKind)
    ensures
        kind_label(a) == kind_label(b) ==> a == b,
{
    reveal_strlit("cloud");
    reveal_strlit("api");
    reveal_strlit("local");
    reveal_strlit("gpu-rental");
    if a != b {
        assert(kind_label(a).len() != kind_label(b).len() || kind_label(a)[0] != kind_label(b)[0]);
    }
}

/// Prices and efforts are held as whole numbers of this many parts of one
/// (ten-thousandths of a US dollar; ten-thousandths of the effort scale).
pub const PRICE_SCALE: u64 = 10000;

/// A provider of model inference and what it charges.
#[derive(Clone, Debug)]
pub struct ProviderPrice {
    pub name: String,
    pub kind: ProviderKind,
    /// Price per 1M input tokens, in ten-thousandths of a US dollar.
    pub input_per_mtok: u64,
    /// Price per 1M output tokens, in ten-thousandths of a US dollar.
    pub output_per_mtok: u64,
    /// Hourly rate (rented GPUs and servers) in ten-thousandths of a US
    /// dollar; none for providers that charge per token only.
    pub hourly_rate: Option<u64>,
    /// How hard switching to this provider is, from 0 (trivial) to
    /// `PRICE_SCALE` (very hard).
    pub switching_effort: u64,
    /// How hard setting up this provider from scratch is, from 0 (trivial) to
    /// `PRICE_SCALE` (very hard).
    pub setup_effort: u64,
    pub endpoints: Vec<String>,
}

impl ProviderPrice {
    /// Both efforts lie on their scale from 0 to `PRICE_SCALE`.
    pub open spec fn well_formed(&self) -> bool {
        self.switching_effort <= PRICE_SCALE && self.setup_effort <= PRICE_SCALE
    }
}

/// `p` has the given fields and the single endpoint `endpoint`.
pub open spec fn is_entry(
    p: ProviderPrice,
    name: Seq<char>,
    kind: ProviderKind,
    input: u64,
    output: u64,
    hourly: Option<u64>,
    switching: u64,
    setup: u64,
    endpoint: Seq<char>,
) -> bool {
    &&& p.name@ == name
    &&& p.kind == kind
    &&& p.input_per_mtok == input
    &&& p.output_per_mtok == output
    &&& p.hourly_rate == hourly
    &&& p.switching_effort == switching
    &&& p.setup_effort == setup
    &&& p.endpoints@.len() == 1
    &&& p.endpoints@[0]@ == endpoint
}

fn entry(
    name: &str,
    kind: ProviderKind,
    input: u64,
    output: u64,
    hourly: Option<u64>,
    switching: u64,
    setup: u64,
    endpoint: &str,
) -> (p: ProviderPrice)
    ensures
        is_entry(p, name@, kind, input, output, hourly, switching, setup, endpoint@),
{
    let endpoints = vec![endpoint.to_owned()];
    ProviderPrice {
        name: name.to_owned(),
        kind,
        input_per_mtok: input,
        output_per_mtok: output,
        hourly_rate: hourly,
        switching_effort: switching,
        setup_effort: setup,
        endpoints,
    }
}

/// The built-in catalog of providers, with prices in ten-thousandths of a
/// US dollar and efforts in ten-thousandths.
pub open spec fn is_default_catalog(c: Seq<ProviderPrice>) -> bool {
    &&& c.len() == 11
    &&& is_entry(c[0], "Ollama"@, Local, 0, 0, None, 1000, 3000, "http://localhost:11434"@)
    &&& is_entry(c[1], "Together AI"@, Api, 1500, 1500, None, 2000, 2000, "https://api.together.xyz/v1"@)
    &&& is_entry(c[2], "OpenRouter"@, Api, 2500, 12500, None, 1500, 2000, "https://openrouter.ai/api/v1"@)
    &&& is_entry(c[3], "Groq"@, Api, 5900, 7900, None, 2000, 2500, "https://api.groq.com/openai/v1"@)
    &&& is_entry(c[4], "Groq-Llama-3.3"@, Api, 5900, 7900, None, 2000, 2500, "https://api.groq.com/openai/v1"@)
    &&& is_entry(c[5], "Fireworks"@, Api, 1000, 1000, None, 2000, 2500, "https://api.fireworks.ai/inference/v1"@)
    &&& is_entry(c[6], "AWS Bedrock"@, Cloud, 8000, 24000, None, 6000, 7000, "https://bedrock-runtime.amazonaws.com"@)
    &&& is_entry(c[7], "Google Vertex"@, Cloud, 3500, 12500, None, 5000, 6000, "https://us-central1-aiplatform.googleapis.com"@)
    &&& is_entry(c[8], "Azure OpenAI"@, Cloud, 6000, 18000, None, 6000, 7000, "https://api.openai.com"@)
    &&& is_entry(c[9], "Lambda GPU"@, GpuRental, 0, 0, Some(9900), 4000, 4000, "https://cloud.lambdalabs.com"@)
    &&& is_entry(c[10], "RunPod"@, GpuRental, 0, 0, Some(6900), 4000, 4000, "https://www.runpod.io"@)
}

/// The built-in catalog of providers; the first is the local one.
pub fn default_providers() -> (r: Vec<ProviderPrice>)
    ensures
        is_default_catalog(r@),
{
    vec![
        entry("Ollama", Local, 0, 0, None, 1000, 3000, "http://localhost:11434"),
        entry("Together AI", Api, 1500, 1500, None, 2000, 2000, "https://api.together.xyz/v1"),
        entry("OpenRouter", Api, 2500, 12500, None, 1500, 2000, "https://openrouter.ai/api/v1"),
        entry("Groq", Api, 5900, 7900, None, 2000, 2500, "https://api.groq.com/openai/v1"),
        entry("Groq-Llama-3.3", Api, 5900, 7900, None, 2000, 2500, "https://api.groq.com/openai/v1"),
        entry("Fireworks", Api, 1000, 1000, None, 2000, 2500, "https://api.fireworks.ai/inference/v1"),
        entry("AWS Bedrock", Cloud, 8000, 24000, None, 6000, 7000, "https://bedrock-runtime.amazonaws.com"),
        entry("Google Vertex", Cloud, 3500, 12500, None, 5000, 6000, "https://us-central1-aiplatform.googleapis.com"),
        entry("Azure OpenAI", Cloud, 6000, 18000, None, 6000, 7000, "https://api.openai.com"),
        entry("Lambda GPU", GpuRental, 0, 0, Some(9900), 4000, 4000, "https://cloud.lambdalabs.com"),
        entry("RunPod", GpuRental, 0, 0, Some(6900), 4000, 4000, "https://www.runpod.io"),
    ]
}

/// What the catalog promises its users: the first provider is the local one
/// that the local estimate is made with, every effort lies on its scale, an
/// hourly rate is charged exactly by the GPU rentals, local inference costs
/// nothing per token, no provider charges more per input token than per
/// output token, and no two providers share a name.
pub proof fn lemma_default_catalog(c: Seq<ProviderPrice>)
    requires
        is_default_catalog(c),
    ensures
        c[0].kind == ProviderKind::Local,
        forall|i: int| 0 <= i < c.len() ==> (#[trigger] c[i]).well_formed(),
        forall|i: int|
            0 <= i < c.len() ==> ((#[trigger] c[i]).hourly_rate is Some <==> c[i].kind
                == ProviderKind::GpuRental),
        forall|i: int|
            0 <= i < c.len() && (#[trigger] c[i]).kind == ProviderKind::Local ==> c[i].input_per_mtok
                == 0 && c[i].output_per_mtok == 0,
        forall|i: int|
            0 <= i < c.len() ==> (#[trigger] c[i]).input_per_mtok <= c[i].output_per_mtok,
        forall|i: int, j: int|
            0 <= i < c.len() && 0 <= j < c.len() && i != j ==> (#[trigger] c[i]).name@ != (
            #[trigger] c[j]).name@,
{
    reveal_strlit("Ollama");
    reveal_strlit("Together AI");
    reveal_strlit("OpenRouter");
    reveal_strlit("Groq");
    reveal_strlit("Groq-Llama-3.3");
    reveal_strlit("Fireworks");
    reveal_strlit("AWS Bedrock");
    reveal_strlit("Google Vertex");
    reveal_strlit("Azure OpenAI");
    reveal_strlit("Lambda GPU");
    reveal_strlit("RunPod");
    assert forall|i: int, j: int|
        0 <= i < c.len() && 0 <= j < c.len() && i != j implies (#[trigger] c[i]).name@ != (
        #[trigger] c[j]).name@ by {
        if c[i].name@ == c[j].name@ {
            assert(c[i].name@.len() == c[j].name@.len());
            assert(c[i].name@[0] == c[j].name@[0]);
            assert(c[i].name@[1] == c[j].name@[1]);
        }
    }
}

} // verus!
