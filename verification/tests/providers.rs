use cloudfits::provider::{default_providers, ProviderKind, ProviderPrice, PRICE_SCALE};
use cloudfits::select::{
    filter_providers_by_kind, filter_providers_by_label, find_api_match_lowercase,
    find_exact_lowercase, find_provider, find_provider_exact, find_provider_lowercase,
    remote_providers, requested_model, select_api_provider, ProviderError,
};

fn names(ps: &[ProviderPrice]) -> Vec<String> {
    ps.iter().map(|p| p.name.clone()).collect()
}

fn lowered(list: &[&str]) -> Vec<String> {
    list.iter().map(|s| s.to_string()).collect()
}

#[test]
fn labels() {
    assert_eq!(ProviderKind::Cloud.label(), "cloud");
    assert_eq!(ProviderKind::Api.label(), "api");
    assert_eq!(ProviderKind::Local.label(), "local");
    assert_eq!(ProviderKind::GpuRental.label(), "gpu-rental");
}

#[test]
fn catalog_contents() {
    let ps = default_providers();
    assert_eq!(ps.len(), 11);
    assert_eq!(ps[0].name, "Ollama");
    assert_eq!(ps[0].kind, ProviderKind::Local);
    assert_eq!(ps[0].endpoints, vec!["http://localhost:11434".to_string()]);
    assert_eq!(ps[1].input_per_mtok, 1500);
    assert_eq!(ps[2].output_per_mtok, 12500);
    assert_eq!(ps[9].hourly_rate, Some(9900));
    assert_eq!(ps[10].hourly_rate, Some(6900));
    assert_eq!(ps[6].setup_effort, 7000);
    // The stored prices are the catalog's dollar figures.
    assert_eq!(ps[1].input_per_mtok as f64 / PRICE_SCALE as f64, 0.15);
    assert_eq!(ps[3].output_per_mtok as f64 / PRICE_SCALE as f64, 0.79);
    assert_eq!(ps[9].hourly_rate.unwrap() as f64 / PRICE_SCALE as f64, 0.99);
}

#[test]
fn catalog_laws_on_values() {
    let ps = default_providers();
    assert_eq!(ps[0].kind, ProviderKind::Local);
    for p in &ps {
        assert!(p.switching_effort <= PRICE_SCALE && p.setup_effort <= PRICE_SCALE);
        assert_eq!(p.hourly_rate.is_some(), p.kind == ProviderKind::GpuRental);
        if p.kind == ProviderKind::Local {
            assert_eq!((p.input_per_mtok, p.output_per_mtok), (0, 0));
        }
    }
    let ns = names(&ps);
    for i in 0..ns.len() {
        for j in 0..ns.len() {
            if i != j {
                assert_ne!(ns[i], ns[j]);
            }
        }
    }
}

#[test]
fn find_provider_prefers_exact_names() {
    let ps = default_providers();
    assert_eq!(find_provider(&ps, "groq").ok().map(|p| p.name.clone()), Some("Groq".into()));
    assert_eq!(find_provider(&ps, "GROQ-llama-3.3").ok().map(|p| p.name.clone()), Some("Groq-Llama-3.3".into()));
    assert_eq!(find_provider(&ps, "ollama").ok().map(|p| p.name.clone()), Some("Ollama".into()));
}

#[test]
fn find_provider_by_containment() {
    let ps = default_providers();
    // "together" is contained in "together ai".
    assert_eq!(find_provider(&ps, "together").ok().map(|p| p.name.clone()), Some("Together AI".into()));
    // "runpod.io" contains "runpod".
    assert_eq!(find_provider(&ps, "RunPod.io").ok().map(|p| p.name.clone()), Some("RunPod".into()));
    // "groq-" contains "groq", which comes before "groq-llama-3.3".
    assert_eq!(find_provider(&ps, "groq-").ok().map(|p| p.name.clone()), Some("Groq".into()));
}

#[test]
fn find_provider_unknown() {
    let ps = default_providers();
    match find_provider(&ps, "Nowhere") {
        Err(ProviderError::UnknownProvider(n)) => assert_eq!(n, "Nowhere"),
        Ok(_) => panic!("found"),
    }
}

#[test]
fn find_provider_exact_only() {
    let ps = default_providers();
    assert_eq!(find_provider_exact(&ps, "fireworks").ok().map(|p| p.name.clone()), Some("Fireworks".into()));
    assert!(matches!(find_provider_exact(&ps, "together"), Err(ProviderError::UnknownProvider(_))));
}

#[test]
fn lookups_on_lowercase_names() {
    let ns = lowered(&["abc", "ab", "xabcx"]);
    assert_eq!(find_exact_lowercase(&ns, "ab"), Some(1));
    assert_eq!(find_exact_lowercase(&ns, "AB"), None);
    assert_eq!(find_provider_lowercase(&ns, "ab"), Some(1));
    assert_eq!(find_provider_lowercase(&ns, "bc"), Some(0));
    assert_eq!(find_provider_lowercase(&ns, "zxabcxz"), Some(0));
    assert_eq!(find_provider_lowercase(&ns, "q"), None);
    assert_eq!(find_api_match_lowercase(&ns, "ab"), Some(0));
    assert_eq!(find_api_match_lowercase(&ns, "zxabcxz"), None);
}

#[test]
fn api_selection() {
    let ps = default_providers();
    assert_eq!(select_api_provider(&ps, None).name, "Ollama");
    assert_eq!(select_api_provider(&ps, Some("GROQ")).name, "Groq");
    assert_eq!(select_api_provider(&ps, Some("vertex")).name, "Google Vertex");
    assert_eq!(select_api_provider(&ps, Some("nothing")).name, "Ollama");
    // A longer name does not match a shorter provider name here.
    assert_eq!(select_api_provider(&ps, Some("runpod.io")).name, "Ollama");
    assert_eq!(requested_model(None), "llama-3.1-8b-instruct");
    assert_eq!(requested_model(Some("llama-70b".into())), "llama-70b");
}

#[test]
fn filter_by_kind() {
    let all = names(&filter_providers_by_kind(default_providers(), None));
    assert_eq!(all.len(), 11);
    let rentals = names(&filter_providers_by_kind(default_providers(), Some("GPU-Rental")));
    assert_eq!(rentals, vec!["Lambda GPU".to_string(), "RunPod".to_string()]);
    let clouds = names(&filter_providers_by_kind(default_providers(), Some("cloud")));
    assert_eq!(clouds, vec!["AWS Bedrock".to_string(), "Google Vertex".to_string(), "Azure OpenAI".to_string()]);
    assert!(filter_providers_by_kind(default_providers(), Some("nope")).is_empty());
    assert!(filter_providers_by_label(default_providers(), "LOCAL").is_empty());
    assert_eq!(names(&filter_providers_by_label(default_providers(), "local")), vec!["Ollama".to_string()]);
}

#[test]
fn remote_providers_leave_out_local_ones() {
    let remote = names(&remote_providers(default_providers()));
    assert_eq!(remote.len(), 10);
    assert!(!remote.contains(&"Ollama".to_string()));
    assert_eq!(remote[0], "Together AI");
}
