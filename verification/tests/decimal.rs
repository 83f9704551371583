use ultraterm::decimal::push_decimal;

#[test]
fn numbers_are_written_in_decimal() {
    for n in [0_u64, 7, 10, 99, 100, 65_535, u64::MAX] {
        let mut out = b"n=".to_vec();
        push_decimal(&mut out, n);
        assert_eq!(out, format!("n={n}").into_bytes());
    }
}
