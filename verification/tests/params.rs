use cloudfits::params::{param_count_from_lowercase, parse_params_billions, ParamCount};

fn billions(p: ParamCount) -> f64 {
    match p {
        ParamCount::Written(t) => t.parse::<f64>().expect("written sizes always parse"),
        ParamCount::Guessed(n) => n as f64,
    }
}

fn written(p: ParamCount) -> Option<String> {
    match p {
        ParamCount::Written(t) => Some(t),
        ParamCount::Guessed(_) => None,
    }
}

fn guessed(p: ParamCount) -> Option<u64> {
    match p {
        ParamCount::Written(_) => None,
        ParamCount::Guessed(n) => Some(n),
    }
}

#[test]
fn parse_params() {
    assert_eq!(billions(parse_params_billions("llama-3.1-8b-instruct")), 8.0);
    assert_eq!(billions(parse_params_billions("llama-70b")), 70.0);
}

#[test]
fn size_before_first_b_is_read() {
    assert_eq!(written(parse_params_billions("llama-70b")), Some("70".to_string()));
    // "qwen2.5-7" keeps "2.5-7", which is no number.
    assert_eq!(written(parse_params_billions("qwen2.5-7b")), None);
    assert_eq!(guessed(parse_params_billions("qwen2.5-7b")), Some(8));
}

#[test]
fn first_b_with_text_that_is_no_number_falls_back_to_family() {
    // "llama-3.1-8" keeps "3.1-8", which is no number.
    assert_eq!(guessed(parse_params_billions("llama-3.1-8b-instruct")), Some(8));
    assert_eq!(guessed(parse_params_billions("mixtral-8x7b")), Some(8));
}

#[test]
fn decimal_and_exponent_sizes() {
    assert_eq!(written(parse_params_billions("phi-2.7b")), Some("2.7".to_string()));
    assert_eq!(billions(parse_params_billions("phi-2.7b")), 2.7);
    assert_eq!(written(parse_params_billions("x-1e2b")), Some("1e2".to_string()));
    assert_eq!(billions(parse_params_billions("x-1e2b")), 100.0);
    assert_eq!(written(parse_params_billions("model-.5b")), Some(".5".to_string()));
    assert_eq!(written(parse_params_billions("model-5.b")), Some("5.".to_string()));
}

#[test]
fn upper_case_names_are_lowered() {
    assert_eq!(written(parse_params_billions("LLAMA-70B")), Some("70".to_string()));
    assert_eq!(guessed(param_count_from_lowercase("LLAMA-70B")), Some(8));
}

#[test]
fn family_guesses() {
    assert_eq!(guessed(param_count_from_lowercase("x.y-72b")), Some(70));
    assert_eq!(guessed(param_count_from_lowercase("a-b-72b")), Some(70));
    assert_eq!(guessed(param_count_from_lowercase("a-b-32b")), Some(34));
    assert_eq!(guessed(param_count_from_lowercase("a-b-14b")), Some(13));
    assert_eq!(guessed(param_count_from_lowercase("a-b-3b")), Some(8));
}

#[test]
fn names_without_b_are_eight_billion() {
    assert_eq!(guessed(parse_params_billions("mistral")), Some(8));
    assert_eq!(guessed(parse_params_billions("")), Some(8));
    assert_eq!(guessed(parse_params_billions("gpt-4o-70")), Some(8));
}
