use enclave_runner::decimal::decimal;

#[test]
fn decimal_digits_of_numbers() {
    assert_eq!(decimal(0), "0");
    assert_eq!(decimal(7), "7");
    assert_eq!(decimal(10), "10");
    assert_eq!(decimal(55296), "55296");
    assert_eq!(decimal(u64::MAX), "18446744073709551615");
}
