use patent::text::{
    chars_of, contains, decimal_string, find, join_strings, trim_chars, two_decimals_string,
};

#[test]
fn decimal_and_fixed_point_text() {
    assert_eq!(decimal_string(0), "0");
    assert_eq!(decimal_string(1234567890), "1234567890");
    assert_eq!(two_decimals_string(85), "0.85");
    assert_eq!(two_decimals_string(-120), "-1.20");
    assert_eq!(two_decimals_string(7), "0.07");
}

#[test]
fn search_and_trim() {
    let hay = chars_of("say ``` twice ```");
    let needle = chars_of("```");
    assert_eq!(find(&hay, &needle), Some(4));
    assert!(contains(&hay, &chars_of("twice")));
    assert!(!contains(&hay, &chars_of("thrice")));
    assert_eq!(find(&hay, &[]), Some(0));
    let t: String = trim_chars(&chars_of("\u{a0} x y \n")).into_iter().collect();
    assert_eq!(t, "x y");
}

#[test]
fn joining() {
    let parts = vec!["a".to_string(), "bc".to_string()];
    assert_eq!(join_strings(&parts, ", "), "a, bc");
    assert_eq!(join_strings(&[], ", "), "");
}
