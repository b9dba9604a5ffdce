use cloudfits::number::is_float_literal_str;

fn std_accepts(s: &str) -> bool {
    s.parse::<f64>().is_ok()
}

#[test]
fn accepted_literals() {
    for s in [
        "0", "8", "70", "3.1", "5.", ".5", "1e5", "1E5", "1e+5", "1e-5", "+3", "-3.5", "inf",
        "INF", "-Infinity", "+infinity", "nan", "NaN", "1.5e10", "00.00",
    ] {
        assert!(is_float_literal_str(s), "{s}");
        assert!(std_accepts(s), "{s}");
    }
}

#[test]
fn refused_literals() {
    for s in [
        "", ".", "+", "-", "e5", "1e", "1e+", "3.1-8", "1.2.3", " 1", "1 ", "1_000", "infinit",
        "nana", "+-1", "1e5.0", "0x10", "١",
    ] {
        assert!(!is_float_literal_str(s), "{s}");
        assert!(!std_accepts(s), "{s}");
    }
}
