use cloudfits::cli::{migration_steps, primary_endpoint};
use cloudfits::provider::default_providers;
use cloudfits::tui::{exit_after_key, is_help_argument, KeyInput};

#[test]
fn migration_steps_for_groq() {
    let ps = default_providers();
    let steps = migration_steps("llama-3.1-8b-instruct", &ps[3]);
    assert_eq!(
        steps,
        vec![
            "  1. Set base URL:  https://api.groq.com/openai/v1".to_string(),
            "  2. Set API key (from provider dashboard)".to_string(),
            "  3. Update model id to 'llama-3.1-8b-instruct'".to_string(),
            "  4. Validate: cloudfits cost --model llama-3.1-8b-instruct --provider Groq".to_string(),
        ]
    );
    assert_eq!(primary_endpoint(&ps[3]), "https://api.groq.com/openai/v1");
}

#[test]
fn no_steps_without_endpoint() {
    let mut ps = default_providers();
    ps[1].endpoints.clear();
    assert!(migration_steps("m", &ps[1]).is_empty());
    assert_eq!(primary_endpoint(&ps[1]), "");
}

#[test]
fn keys() {
    assert!(exit_after_key(false, true, KeyInput::Char('q')));
    assert!(exit_after_key(false, true, KeyInput::Esc));
    assert!(!exit_after_key(false, false, KeyInput::Char('q')));
    assert!(!exit_after_key(false, true, KeyInput::Char('Q')));
    assert!(!exit_after_key(false, true, KeyInput::Other));
    assert!(exit_after_key(true, false, KeyInput::Other));
}

#[test]
fn help_arguments() {
    assert!(is_help_argument("--help"));
    assert!(is_help_argument("-h"));
    assert!(is_help_argument("help"));
    assert!(!is_help_argument("--HELP"));
    assert!(!is_help_argument("cost"));
}
