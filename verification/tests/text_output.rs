use organic_lsp::text::push_decimal;

fn decimal(n: u64) -> String {
    let mut s = String::new();
    push_decimal(&mut s, n);
    s
}

#[test]
fn decimals_have_no_leading_zeros() {
    assert_eq!(decimal(0), "0");
    assert_eq!(decimal(7), "7");
    assert_eq!(decimal(10), "10");
    assert_eq!(decimal(4294967295), "4294967295");
    assert_eq!(decimal(u64::MAX), u64::MAX.to_string());
}

#[test]
fn decimal_appends() {
    let mut s = "n = ".to_string();
    push_decimal(&mut s, 305);
    assert_eq!(s, "n = 305");
}
