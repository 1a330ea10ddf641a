use vaelorium::numbers::{parse_i64, parse_u64};

#[test]
fn header_numbers_read_as_std_reads_them() {
    let samples = [
        "", "0", "42", "+7", "-1", "007", " 1", "1 ", "1a", "+", "-", "--1", "+-1",
        "18446744073709551615", "18446744073709551616", "9223372036854775807", "9223372036854775808",
        "-9223372036854775808", "-9223372036854775809", "٣",
    ];
    for s in samples {
        assert_eq!(parse_u64(s), s.parse::<u64>().ok(), "u64 {s:?}");
        assert_eq!(parse_i64(s), s.parse::<i64>().ok(), "i64 {s:?}");
    }
    assert_eq!(parse_u64("18446744073709551615"), Some(u64::MAX));
    assert_eq!(parse_i64("-9223372036854775808"), Some(i64::MIN));
    assert_eq!(parse_u64("+7"), Some(7));
    assert_eq!(parse_i64("-42"), Some(-42));
}
