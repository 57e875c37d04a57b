use polynomial_solver::decimal::{parse_decimal, parse_signed, push_decimal, push_signed};
use polynomial_solver::parser::{clean, Parser, ParserError};
use polynomial_solver::polynomial::{Polynomial, Term};
use polynomial_solver::scanner::{scan, RawCapture};

fn capture(
    sign: Option<&str>,
    coefficient: Option<&str>,
    variable: Option<&str>,
    exponent: Option<&str>,
) -> RawCapture {
    let mut body = String::new();
    body.push_str(coefficient.unwrap_or(""));
    body.push_str(variable.unwrap_or(""));
    if let Some(digits) = exponent {
        if !digits.is_empty() {
            body.push('^');
            body.push_str(digits);
        }
    }
    RawCapture {
        sign: sign.map(|s| s.to_string()),
        body: Some(body),
        coefficient: coefficient.map(|s| s.to_string()),
        variable: variable.map(|s| s.to_string()),
        exponent: exponent.map(|s| s.to_string()),
    }
}

fn missing() -> RawCapture {
    RawCapture { sign: None, body: None, coefficient: None, variable: None, exponent: None }
}

#[test]
fn white_space_is_taken_out() {
    assert_eq!(clean("  2x ^ 2 \t+\n 1 "), "2x^2+1");
    assert_eq!(clean("\u{a0}x\u{3000}"), "x");
    assert_eq!(clean(""), "");
    assert_eq!(clean(" \t\r\n"), "");
}

#[test]
fn every_white_space_character_is_taken_out_and_no_other() {
    let white: Vec<u32> = vec![
        0x9, 0xa, 0xb, 0xc, 0xd, 0x20, 0x85, 0xa0, 0x1680, 0x2000, 0x2001, 0x2002, 0x2003,
        0x2004, 0x2005, 0x2006, 0x2007, 0x2008, 0x2009, 0x200a, 0x2028, 0x2029, 0x202f,
        0x205f, 0x3000,
    ];
    for code in 0..=0x10ffffu32 {
        if let Some(c) = char::from_u32(code) {
            let text: String = vec!['a', c, 'b'].into_iter().collect();
            let kept = clean(&text);
            if white.contains(&code) {
                assert_eq!(kept, "ab", "{:x}", code);
                assert!(c.is_whitespace());
            } else if code < 0x3100 || code % 0x101 == 0 {
                assert_eq!(kept, text, "{:x}", code);
            } else {
                assert!(!c.is_whitespace(), "{:x}", code);
            }
        }
    }
}

#[test]
fn text_is_scanned_into_one_capture_for_each_term() {
    let captures = scan("2x^2-x+10");
    assert_eq!(captures.len(), 3);
    assert_eq!(captures[0].sign, None);
    assert_eq!(captures[0].body.as_deref(), Some("2x^2"));
    assert_eq!(captures[0].coefficient.as_deref(), Some("2"));
    assert_eq!(captures[0].variable.as_deref(), Some("x"));
    assert_eq!(captures[0].exponent.as_deref(), Some("2"));
    assert_eq!(captures[1].sign.as_deref(), Some("-"));
    assert_eq!(captures[1].body.as_deref(), Some("x"));
    assert_eq!(captures[1].coefficient.as_deref(), Some(""));
    assert_eq!(captures[1].variable.as_deref(), Some("x"));
    assert_eq!(captures[1].exponent.as_deref(), Some(""));
    assert_eq!(captures[2].sign.as_deref(), Some("+"));
    assert_eq!(captures[2].body.as_deref(), Some("10"));
    assert_eq!(captures[2].variable.as_deref(), Some(""));
}

#[test]
fn empty_text_has_no_captures() {
    assert_eq!(scan("").len(), 0);
}

#[test]
fn a_capture_without_a_body_is_a_missing_term() {
    let first = vec![missing()];
    assert!(matches!(Parser::interpret(&first), Err(ParserError::MissingTerm(0))));
    let third = vec![
        capture(None, Some("2"), Some("x"), None),
        capture(Some("+"), Some("3"), None, None),
        missing(),
        capture(None, Some("3"), None, None),
    ];
    assert!(matches!(Parser::interpret(&third), Err(ParserError::MissingTerm(2))));
    assert!(matches!(Parser::parse_value(5, &missing()), Err(ParserError::MissingTerm(5))));
}

#[test]
fn a_capture_with_an_empty_body_is_a_missing_term() {
    let bare = |sign: Option<&str>| RawCapture {
        sign: sign.map(|s| s.to_string()),
        body: Some(String::new()),
        coefficient: Some(String::new()),
        variable: Some(String::new()),
        exponent: Some(String::new()),
    };
    assert!(matches!(Parser::parse_value(0, &bare(None)), Err(ParserError::MissingTerm(0))));
    assert!(matches!(Parser::parse_value(0, &bare(Some("+"))), Err(ParserError::MissingTerm(0))));
    assert!(matches!(Parser::parse_value(4, &bare(Some("-"))), Err(ParserError::MissingTerm(4))));
    assert!(matches!(Parser::parse_value(4, &bare(None)), Err(ParserError::MissingTerm(4))));
    let captures = vec![capture(None, Some("2"), Some("x"), None), bare(Some("+"))];
    assert!(matches!(Parser::interpret(&captures), Err(ParserError::MissingTerm(1))));
    let scanned = scan("2x+");
    assert_eq!(scanned.len(), 2);
    assert_eq!(scanned[1].sign.as_deref(), Some("+"));
    assert_eq!(scanned[1].body.as_deref(), Some(""));
    assert!(matches!(Parser::interpret(&scanned), Err(ParserError::MissingTerm(1))));
}

#[test]
fn the_first_failure_is_the_one_reported() {
    let captures = vec![
        capture(None, Some("2"), Some("x"), None),
        capture(None, Some("3"), Some("y"), None),
        missing(),
    ];
    match Parser::interpret(&captures) {
        Err(ParserError::InvalidTerm(text)) => assert_eq!(text, "3y"),
        other => panic!("unexpected {:?}", other),
    }
}

#[test]
fn only_the_first_term_may_go_without_a_sign() {
    let plain = capture(None, Some("4"), Some("x"), Some("2"));
    assert!(matches!(Parser::parse_value(0, &plain), Ok(4)));
    match Parser::parse_value(1, &plain) {
        Err(ParserError::InvalidTerm(text)) => assert_eq!(text, "4x^2"),
        other => panic!("unexpected {:?}", other),
    }
    let minus = capture(Some("-"), Some("4"), Some("x"), Some("2"));
    assert!(matches!(Parser::parse_value(0, &minus), Ok(-4)));
    assert!(matches!(Parser::parse_value(3, &minus), Ok(-4)));
    let plus = capture(Some("+"), Some("4"), Some("x"), Some("2"));
    assert!(matches!(Parser::parse_value(3, &plus), Ok(4)));
}

#[test]
fn a_coefficient_that_is_no_number_of_i32_counts_as_one() {
    assert!(matches!(Parser::parse_value(0, &capture(None, None, Some("x"), None)), Ok(1)));
    assert!(matches!(Parser::parse_value(0, &capture(None, Some(""), Some("x"), None)), Ok(1)));
    assert!(matches!(
        Parser::parse_value(0, &capture(Some("-"), Some("2147483647"), None, None)),
        Ok(-2147483647)
    ));
    assert!(matches!(
        Parser::parse_value(0, &capture(Some("-"), Some("2147483648"), None, None)),
        Ok(-1)
    ));
    assert!(matches!(Parser::parse_value(0, &capture(None, Some("0"), None, None)), Ok(0)));
    assert!(matches!(Parser::parse_value(0, &capture(None, Some("007"), None, None)), Ok(7)));
}

#[test]
fn exponents_are_read_or_implied() {
    assert_eq!(Parser::parse_power(&capture(None, Some("2"), Some("x"), Some("3"))), 3);
    assert_eq!(Parser::parse_power(&capture(None, Some("2"), Some("x"), Some(""))), 1);
    assert_eq!(Parser::parse_power(&capture(None, Some("2"), Some("x"), None)), 1);
    assert_eq!(Parser::parse_power(&capture(None, Some("2"), Some(""), Some(""))), 0);
    assert_eq!(Parser::parse_power(&capture(None, Some("2"), None, None)), 0);
    assert_eq!(Parser::parse_power(&capture(None, Some("2"), Some("x"), Some("0"))), 0);
    assert_eq!(
        Parser::parse_power(&capture(None, Some("2"), Some("x"), Some("4294967295"))),
        4294967295
    );
    assert_eq!(Parser::parse_power(&capture(None, Some("2"), Some("x"), Some("4294967296"))), 1);
    assert_eq!(Parser::parse_power(&capture(None, Some("2"), Some(""), Some("4294967296"))), 0);
}

#[test]
fn term_lists_are_validated() {
    assert!(matches!(Parser::validate_polynomial(Ok(vec![])), Err(ParserError::EmptyPolynomial)));
    assert!(matches!(
        Parser::validate_polynomial(Ok(vec![Term { value: -9, power: 0 }])),
        Err(ParserError::IsScalar(-9))
    ));
    assert_eq!(
        Parser::validate_polynomial(Ok(vec![Term { value: 9, power: 1 }])).unwrap(),
        vec![Term { value: 9, power: 1 }]
    );
    assert_eq!(
        Parser::validate_polynomial(Ok(vec![
            Term { value: 9, power: 0 },
            Term { value: 1, power: 0 }
        ]))
        .unwrap(),
        vec![Term { value: 9, power: 0 }, Term { value: 1, power: 0 }]
    );
    assert!(matches!(
        Parser::validate_polynomial(Err(ParserError::MissingTerm(4))),
        Err(ParserError::MissingTerm(4))
    ));
}

#[test]
fn written_terms_are_read_back() {
    let terms = vec![
        Term { value: 7, power: 5 },
        Term { value: -2147483647, power: 4294967295 },
        Term { value: 0, power: 0 },
        Term { value: 2147483647, power: 1 },
    ];
    let mut text = String::new();
    for (i, term) in terms.iter().enumerate() {
        if term.value < 0 {
            text.push('-');
        } else if i > 0 {
            text.push('+');
        }
        text.push_str(&format!("{}x^{}", term.value.unsigned_abs(), term.power));
    }
    assert_eq!(Parser::parse(&text).unwrap(), Polynomial(terms));
}

#[test]
fn errors_are_put_into_sentences() {
    assert_eq!(ParserError::EmptyPolynomial.message(), "Parser Error: polynomial is empty");
    assert_eq!(ParserError::IsScalar(-42).message(), "Parser Error: polynomial is scaler -42");
    assert_eq!(
        ParserError::InvalidTerm("3x".to_string()).message(),
        "Parser Error: invalid term 3x"
    );
    assert_eq!(ParserError::MissingTerm(12).message(), "Parser Error: Missing Term in group 12");
}

#[test]
fn digits_are_read_up_to_a_limit() {
    assert_eq!(parse_decimal("0", 10), Some(0));
    assert_eq!(parse_decimal("10", 10), Some(10));
    assert_eq!(parse_decimal("11", 10), None);
    assert_eq!(parse_decimal("0010", 10), Some(10));
    assert_eq!(parse_decimal("", 10), None);
    assert_eq!(parse_decimal("1a", 10), None);
    assert_eq!(parse_decimal("+1", 10), None);
    assert_eq!(parse_decimal("18446744073709551615", u64::MAX), Some(u64::MAX));
    assert_eq!(parse_decimal("18446744073709551616", u64::MAX), None);
    assert_eq!(parse_decimal("99999999999999999999999", u64::MAX), None);
}

#[test]
fn signed_numbers_are_read() {
    assert_eq!(parse_signed("12"), Some(12));
    assert_eq!(parse_signed("+12"), Some(12));
    assert_eq!(parse_signed("-12"), Some(-12));
    assert_eq!(parse_signed("-0"), Some(0));
    assert_eq!(parse_signed("-"), None);
    assert_eq!(parse_signed("+"), None);
    assert_eq!(parse_signed(""), None);
    assert_eq!(parse_signed(" 1"), None);
    assert_eq!(parse_signed("--1"), None);
    assert_eq!(parse_signed("9223372036854775807"), Some(i64::MAX));
    assert_eq!(parse_signed("9223372036854775808"), None);
    assert_eq!(parse_signed("-9223372036854775808"), Some(i64::MIN));
    assert_eq!(parse_signed("-9223372036854775809"), None);
}

#[test]
fn numbers_are_written_in_decimal() {
    let mut out = vec!['<'];
    push_decimal(&mut out, 0);
    push_decimal(&mut out, 1205);
    push_signed(&mut out, -34);
    push_signed(&mut out, i64::MIN);
    push_decimal(&mut out, u64::MAX);
    let text: String = out.into_iter().collect();
    assert_eq!(text, "<01205-34-922337203685477580818446744073709551615");
}
