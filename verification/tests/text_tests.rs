use agent_cli_rust::text::{
    byte_len, clip, cat2, decimal_string, join_strings, signed_decimal_string, str_eq,
};

#[test]
fn decimals() {
    assert_eq!(decimal_string(0), "0");
    assert_eq!(decimal_string(1036), "1036");
    assert_eq!(decimal_string(u64::MAX), u64::MAX.to_string());
    assert_eq!(signed_decimal_string(-1), "-1");
    assert_eq!(signed_decimal_string(i64::MIN), i64::MIN.to_string());
    assert_eq!(signed_decimal_string(42), "42");
}

#[test]
fn joining() {
    let v = vec!["a".to_string(), "b".to_string(), "c".to_string()];
    assert_eq!(join_strings(&v, ", "), "a, b, c");
    assert_eq!(join_strings(&Vec::new(), ", "), "");
    assert_eq!(join_strings(&vec!["x".to_string()], ", "), "x");
}

#[test]
fn byte_lengths_and_cuts() {
    assert_eq!(byte_len("北京"), 6);
    assert_eq!(clip("北京天气".to_string(), 6, "…"), "北京…");
    assert_eq!(clip("short".to_string(), 6, "…"), "short");
    assert_eq!(cat2("a", "b"), "ab");
    assert!(str_eq("x", "x"));
    assert!(!str_eq("x", "X"));
}

#[test]
fn a_cut_keeps_exactly_the_limit_of_bytes() {
    let text = "天".repeat(10);
    let cut = clip(text.clone(), 9, "...");
    assert_eq!(cut.len(), 9 + 3);
    assert_eq!(&cut.as_bytes()[..9], &text.as_bytes()[..9]);
    assert_eq!(clip(text.clone(), 30, "..."), text);
}
