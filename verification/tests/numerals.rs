use raytracer::numeral::{is_float_token, parse_i64};

#[test]
fn parse_i64_plain_values() {
    assert_eq!(parse_i64(b"0"), Some(0));
    assert_eq!(parse_i64(b"7"), Some(7));
    assert_eq!(parse_i64(b"42"), Some(42));
    assert_eq!(parse_i64(b"007"), Some(7));
    assert_eq!(parse_i64(b"+5"), Some(5));
    assert_eq!(parse_i64(b"-5"), Some(-5));
    assert_eq!(parse_i64(b"-0"), Some(0));
}

#[test]
fn parse_i64_bounds() {
    assert_eq!(parse_i64(b"9223372036854775807"), Some(i64::MAX));
    assert_eq!(parse_i64(b"-9223372036854775808"), Some(i64::MIN));
    assert_eq!(parse_i64(b"9223372036854775808"), None);
    assert_eq!(parse_i64(b"-9223372036854775809"), None);
    assert_eq!(parse_i64(b"99999999999999999999999999"), None);
}

#[test]
fn parse_i64_malformed() {
    assert_eq!(parse_i64(b""), None);
    assert_eq!(parse_i64(b"+"), None);
    assert_eq!(parse_i64(b"-"), None);
    assert_eq!(parse_i64(b"1.5"), None);
    assert_eq!(parse_i64(b"12a"), None);
    assert_eq!(parse_i64(b" 1"), None);
    assert_eq!(parse_i64(b"--1"), None);
}

#[test]
fn parse_i64_matches_std() {
    let samples: [&[u8]; 12] = [
        b"0",
        b"-17",
        b"+000",
        b"9223372036854775807",
        b"-9223372036854775808",
        b"18446744073709551616",
        b"3/4",
        b"",
        b"12 ",
        b"0x10",
        b"984310",
        b"-000001",
    ];
    for s in samples {
        let text = std::str::from_utf8(s).unwrap();
        assert_eq!(parse_i64(s), text.parse::<i64>().ok(), "token {:?}", text);
    }
}

#[test]
fn float_tokens_follow_the_standard_grammar() {
    let accepted: [&[u8]; 16] = [
        b"1",
        b"-1",
        b"+1",
        b"1.5",
        b"-3.25",
        b".5",
        b"1.",
        b"1.e3",
        b"2e10",
        b"2E-4",
        b"6.02e+23",
        b"inf",
        b"-inf",
        b"Infinity",
        b"NaN",
        b"nan",
    ];
    for s in accepted {
        let text = std::str::from_utf8(s).unwrap();
        assert!(is_float_token(s), "should accept {:?}", text);
        assert!(text.parse::<f64>().is_ok(), "std should accept {:?}", text);
    }
    let rejected: [&[u8]; 12] = [
        b"",
        b"+",
        b".",
        b"e5",
        b"1.2.3",
        b"1e",
        b"1e+",
        b"in",
        b"infin",
        b"1 ",
        b"one",
        b"0x1p3",
    ];
    for s in rejected {
        let text = std::str::from_utf8(s).unwrap();
        assert!(!is_float_token(s), "should reject {:?}", text);
        assert!(text.parse::<f64>().is_err(), "std should reject {:?}", text);
    }
}

#[test]
fn every_accepted_float_token_converts() {
    // whatever the validator accepts, the renderer's conversion accepts too
    let samples: [&[u8]; 6] = [b"0.000001", b"-0.0", b"1e308", b"-1E-308", b"iNf", b"nAn"];
    for s in samples {
        if is_float_token(s) {
            let text = std::str::from_utf8(s).unwrap();
            assert!(text.parse::<f64>().is_ok(), "validated token {:?} must convert", text);
        }
    }
}
