use russimp_build::strutil::u64_to_dec;

#[test]
fn decimal_rendering_exact() {
    assert_eq!(u64_to_dec(0), "0");
    assert_eq!(u64_to_dec(7), "7");
    assert_eq!(u64_to_dec(10), "10");
    assert_eq!(u64_to_dec(1987), "1987");
    assert_eq!(u64_to_dec(u64::MAX), "18446744073709551615");
}
