use cloudfits::text::{chars_of, contains, find_char, find_substring, same_text, trim_bounds, Strip};

#[test]
fn substring_search() {
    let hay = chars_of("nvidia a100 80gb");
    assert_eq!(find_substring(&hay, &chars_of("a10")), Some(7));
    assert!(contains(&hay, &chars_of("")));
    assert!(!contains(&hay, &chars_of("h100")));
    assert_eq!(find_char(&hay, ' '), Some(6));
    assert_eq!(find_char(&hay, 'z'), None);
}

#[test]
fn trims() {
    let v = chars_of("\u{3000} a b \t");
    assert_eq!(trim_bounds(&v, 0, v.len(), Strip::WhiteSpace), (2, 5));
    let w = chars_of("llama-3.1-8");
    assert_eq!(trim_bounds(&w, 0, w.len(), Strip::NotNumeric), (6, 11));
    let all = chars_of("xyz");
    let (a, b) = trim_bounds(&all, 0, 3, Strip::NotNumeric);
    assert_eq!(a, b);
}

#[test]
fn text_equality() {
    assert!(same_text("help", "help"));
    assert!(!same_text("help", "hel"));
}
