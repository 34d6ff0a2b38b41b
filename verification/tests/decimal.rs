use speedtest_exporter::decimal::{parse_u16, parse_u64, u64_to_decimal};

#[test]
fn parse_u16_agrees_with_std() {
    for s in [
        "", "+", "-", "0", "00", "007", "+7", "-7", "++7", "65535", "65536", "99999", "1 ",
        " 1", "a", "1a", "٣", "+٣", "12\n",
    ] {
        assert_eq!(parse_u16(s), s.parse::<u16>().ok(), "input {:?}", s);
    }
}

#[test]
fn parse_u64_agrees_with_std() {
    for s in [
        "",
        "+",
        "0",
        "300",
        "18446744073709551615",
        "18446744073709551616",
        "99999999999999999999999",
        "+18446744073709551615",
        "1_000",
        "1e3",
    ] {
        assert_eq!(parse_u64(s), s.parse::<u64>().ok(), "input {:?}", s);
    }
}

#[test]
fn decimal_text_agrees_with_std() {
    for n in [0u64, 1, 9, 10, 29, 30, 99, 100, 9798, 1234567890, u64::MAX] {
        assert_eq!(u64_to_decimal(n), n.to_string());
    }
}

#[test]
fn decimal_text_reads_back() {
    for n in [0u64, 7, 42, 65535, u64::MAX - 1, u64::MAX] {
        assert_eq!(parse_u64(&u64_to_decimal(n)), Some(n));
    }
}
