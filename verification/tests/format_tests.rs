use mapfilter::floatlit::is_float_literal_str;
use mapfilter::numfmt::i64_to_dec;
use mapfilter::numfmt::u64_to_dec;
use mapfilter::numfmt::underscored;
use thousands::Separable;

#[test]
fn decimal_rendering() {
    assert_eq!(u64_to_dec(0), "0");
    assert_eq!(u64_to_dec(7), "7");
    assert_eq!(u64_to_dec(240109189), "240109189");
    assert_eq!(u64_to_dec(u64::MAX), "18446744073709551615");
    assert_eq!(i64_to_dec(0), "0");
    assert_eq!(i64_to_dec(-1), "-1");
    assert_eq!(i64_to_dec(i64::MIN), "-9223372036854775808");
    assert_eq!(i64_to_dec(i64::MAX), "9223372036854775807");
}

#[test]
fn underscore_grouping() {
    assert_eq!(underscored(0), "0");
    assert_eq!(underscored(100), "100");
    assert_eq!(underscored(1000), "1_000");
    assert_eq!(underscored(1234567), "1_234_567");
    assert_eq!(underscored(u64::MAX), "18_446_744_073_709_551_615");
}

#[test]
fn underscore_grouping_agrees_with_separator_crate() {
    for n in [
        0u64,
        9,
        10,
        999,
        1000,
        1001,
        123456,
        1234567,
        987654321,
        u64::MAX,
    ] {
        assert_eq!(underscored(n), n.separate_with_underscores());
    }
}

#[test]
fn float_literals_match_std_parsing() {
    let cases = [
        "1", "1.", ".5", "0.5", "1.25", "1e5", "1E5", "1.2e-3", "+3.2e+7", "-0", "-.5", "inf",
        "-inf", "Infinity", "INFINITY", "nan", "NaN", "NAN", "+inf", "1.e5", "", ".", "e5", "1e",
        "1e+", "1.2.3", "two", "+", "-", "--5", "1 ", " 1", "0x10", "1_000", "infx", "na",
        "infinit", "1.2e3.4", "5e", "+.e3",
    ];
    for s in cases {
        assert_eq!(
            is_float_literal_str(s),
            s.parse::<f64>().is_ok(),
            "disagreement on {:?}",
            s
        );
    }
}
