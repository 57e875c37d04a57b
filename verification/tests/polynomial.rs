use polynomial_solver::parser::{Parser, ParserError};
use polynomial_solver::polynomial::{checked_power, Polynomial, Term};
use polynomial_solver::solver::Solver;

#[test]
fn parse_terms() {
    let polynomials = vec![
        ("2x^2", 1),
        ("2x^2 + 2x", 2),
        ("2x^2 + 2x - 4x^3", 3),
        ("2x^2 + 2x - 4x^3 - 123x^123", 4),
        ("2x^2 + 2x - 4x^3 - 123x^123 + 10", 5),
    ];

    polynomials.iter().for_each(|(polynomial, expected)| {
        let actual = Parser::parse(polynomial).expect("valid polynomial");
        println!("{:?}", actual);
        assert_eq!(actual.0.len(), *expected as usize);
    });
}

#[test]
fn can_parse_terms_with_uneven_spacing() {
    let polynomials = vec![
        ("   2x^2    ", 1),
        ("2x^2  +       2x", 2),
        ("2x^2   +       2x-4x^3", 3),
        ("2x^2+ 2x      -4x^3-    123x^123", 4),
        ("   2x^2-2x-4x^3-123x^123+10   ", 5),
    ];

    polynomials.iter().for_each(|(polynomial, expected)| {
        let actual = Parser::parse(polynomial).expect("valid polynomial");
        println!("{:?}", actual);
        assert_eq!(actual.0.len(), *expected as usize);
    });
}

#[test]
fn can_parse_terms_with_leading_sign() {
    let polynomials = vec![
        ("-x^2", 1),
        ("-x^2 + 2x", 2),
        ("-x^2 + 2x - 4x^3", 3),
        ("-2x^2 + 2x - 4x^3 - 123x^123", 4),
        ("-2x^2 + 2x - 4x^3 - 123x^123 + 10", 5),
    ];

    polynomials.iter().for_each(|(polynomial, expected)| {
        let actual = Parser::parse(polynomial).expect("valid polynomial");
        println!("{:?}", actual);
        assert_eq!(actual.0.len(), *expected as usize);
    });
}

#[test]
fn parse_terms_into_polynomial() {
    let polynomials = vec![
        (
            "2x^2 - 2x - 4",
            Polynomial(vec![
                Term { value: 2, power: 2 },
                Term { value: -2, power: 1 },
                Term { value: -4, power: 0 },
            ]),
        ),
        (
            "21x^3 - 147x + 126",
            Polynomial(vec![
                Term { value: 21, power: 3 },
                Term { value: -147, power: 1 },
                Term { value: 126, power: 0 },
            ]),
        ),
        (
            "-x^2 - 2",
            Polynomial(vec![Term { value: -1, power: 2 }, Term { value: -2, power: 0 }]),
        ),
        (
            "x^2 - 2",
            Polynomial(vec![Term { value: 1, power: 2 }, Term { value: -2, power: 0 }]),
        ),
        (
            "-18x^3 + 4",
            Polynomial(vec![Term { value: -18, power: 3 }, Term { value: 4, power: 0 }]),
        ),
    ];

    polynomials.iter().for_each(|(polynomial, expected)| {
        let actual = Parser::parse(polynomial).expect("valid polynomial");
        println!("{:?}", actual);
        assert_eq!(actual, *expected);
    });
}

#[test]
fn will_return_invalid_term_for_malformed_polynomial() {
    let polynomials = vec![
        "",
        "1000",
        "asdasd",
        "-",
        "+",
        "2x - ^2  2x",
        "2x + 2 - 2x asd",
        "2x  / 2 - 2x",
        "2x  + 2 * 2x",
        "(2x  + 2)(2x  - 2)",
        "[[[[[[]]]]]",
    ];

    polynomials.iter().for_each(|polynomial| {
        let terms = Parser::parse(polynomial);
        match terms {
            Ok(terms) => {
                println!("{:?}", terms);
                panic!("should return ParserError::InvalidTerm")
            }
            Err(err) => println!("{} | {}", err.message(), polynomial),
        }
    });
}

#[test]
fn has_x_intercept() {
    let p = Polynomial(vec![
        Term { value: 2, power: 2 },
        Term { value: -2, power: 1 },
        Term { value: -4, power: 0 },
    ]);

    assert_eq!(p.has_x_intercept(-1), true);
    assert_eq!(p.has_x_intercept(5), false);
}

#[test]
fn solve_polynomials() {
    let polynomials = vec![
        (
            Polynomial(vec![
                Term { value: 2, power: 2 },
                Term { value: -2, power: 1 },
                Term { value: -4, power: 0 },
            ]),
            vec![-1, 2],
        ),
        (
            Polynomial(vec![
                Term { value: 21, power: 3 },
                Term { value: -147, power: 1 },
                Term { value: 126, power: 0 },
            ]),
            vec![-3, 1, 2],
        ),
        (
            Polynomial(vec![
                Term { value: 4, power: 3 },
                Term { value: 17, power: 1 },
                Term { value: -3, power: 0 },
            ]),
            vec![],
        ), // no integer solutions
    ];

    polynomials.iter().for_each(|(polynomial, expected)| {
        let intercepts = Solver::solve(polynomial);
        assert_eq!(intercepts, *expected);
    });
}

#[test]
fn a_bare_number_is_a_scalar() {
    assert!(matches!(Parser::parse("42"), Err(ParserError::IsScalar(42))));
    assert!(matches!(Parser::parse("-7"), Err(ParserError::IsScalar(-7))));
}

#[test]
fn empty_text_is_an_empty_polynomial() {
    assert!(matches!(Parser::parse(""), Err(ParserError::EmptyPolynomial)));
    assert!(matches!(Parser::parse("  \t \n "), Err(ParserError::EmptyPolynomial)));
}

#[test]
fn terms_without_a_joining_sign_are_invalid() {
    match Parser::parse("2x 3x") {
        Err(ParserError::InvalidTerm(text)) => assert_eq!(text, "x"),
        other => panic!("unexpected {:?}", other),
    }
    match Parser::parse("2x + 2 * 2x") {
        Err(ParserError::InvalidTerm(_)) => (),
        other => panic!("unexpected {:?}", other),
    }
}

#[test]
fn sign_and_exponent_go_without_saying() {
    assert_eq!(Parser::parse("x").unwrap(), Polynomial(vec![Term { value: 1, power: 1 }]));
    assert_eq!(Parser::parse("-x").unwrap(), Polynomial(vec![Term { value: -1, power: 1 }]));
    assert_eq!(Parser::parse("+x").unwrap(), Polynomial(vec![Term { value: 1, power: 1 }]));
    assert_eq!(
        Parser::parse("3x + 5").unwrap(),
        Polynomial(vec![Term { value: 3, power: 1 }, Term { value: 5, power: 0 }])
    );
}

#[test]
fn spacing_changes_nothing() {
    let spaced = Parser::parse("2x^2   -2x  -  4x^3 -     123x^123+10").unwrap();
    let dense = Parser::parse("2x^2-2x-4x^3-123x^123+10").unwrap();
    assert_eq!(spaced, dense);
    assert_eq!(
        dense,
        Polynomial(vec![
            Term { value: 2, power: 2 },
            Term { value: -2, power: 1 },
            Term { value: -4, power: 3 },
            Term { value: -123, power: 123 },
            Term { value: 10, power: 0 },
        ])
    );
}

#[test]
fn parsed_polynomials_are_solved() {
    assert_eq!(Solver::solve(&Parser::parse("2x^2 - 2x - 4").unwrap()), vec![-1, 2]);
    assert_eq!(Solver::solve(&Parser::parse("21x^3 - 147x + 126").unwrap()), vec![-3, 1, 2]);
    assert_eq!(Solver::solve(&Parser::parse("4x^3 + 17x - 3").unwrap()), Vec::<i32>::new());
}

#[test]
fn roots_at_the_ends_of_the_window_are_found() {
    // (x - 10)(x + 10) = x^2 - 100
    assert_eq!(Solver::solve(&Parser::parse("x^2 - 100").unwrap()), vec![-10, 10]);
    // (x - 11)(x + 11) = x^2 - 121 has its roots just outside
    assert_eq!(Solver::solve(&Parser::parse("x^2 - 121").unwrap()), Vec::<i32>::new());
    // x^3 - x = x (x - 1)(x + 1)
    assert_eq!(Solver::solve(&Parser::parse("x^3 - x").unwrap()), vec![-1, 0, 1]);
}

#[test]
fn terms_of_equal_power_stay_apart() {
    assert_eq!(
        Parser::parse("x + x").unwrap(),
        Polynomial(vec![Term { value: 1, power: 1 }, Term { value: 1, power: 1 }])
    );
}

#[test]
fn checked_power_is_exact_at_the_edges() {
    assert_eq!(checked_power(0, 0), Some(1));
    assert_eq!(checked_power(0, 5), Some(0));
    assert_eq!(checked_power(1, u32::MAX), Some(1));
    assert_eq!(checked_power(-1, u32::MAX), Some(-1));
    assert_eq!(checked_power(-1, 4_000_000_000), Some(1));
    assert_eq!(checked_power(2, 30), Some(1 << 30));
    assert_eq!(checked_power(2, 31), None);
    assert_eq!(checked_power(-2, 31), Some(i32::MIN));
    assert_eq!(checked_power(-2, 32), None);
    assert_eq!(checked_power(10, 9), Some(1_000_000_000));
    assert_eq!(checked_power(10, 10), None);
    assert_eq!(checked_power(-3, 3), Some(-27));
}

#[test]
fn evaluation_fails_where_i32_is_left() {
    let p = Polynomial(vec![Term { value: -123, power: 123 }, Term { value: 10, power: 0 }]);
    assert_eq!(p.evaluate(0), Some(10));
    assert_eq!(p.evaluate(1), Some(-113));
    assert_eq!(p.evaluate(-1), Some(133));
    assert_eq!(p.evaluate(2), None);
    assert_eq!(Solver::checked_solve(&p), None);

    let product = Polynomial(vec![Term { value: 3, power: 30 }]);
    assert_eq!(product.evaluate(2), None);
    let sum = Polynomial(vec![Term { value: i32::MAX, power: 0 }, Term { value: 1, power: 0 }]);
    assert_eq!(sum.evaluate(7), None);
    let back = Polynomial(vec![
        Term { value: i32::MAX, power: 0 },
        Term { value: -1, power: 0 },
        Term { value: 1, power: 0 },
    ]);
    assert_eq!(back.evaluate(7), Some(i32::MAX));
}

#[test]
fn checked_solve_agrees_with_solve() {
    let p = Polynomial(vec![
        Term { value: 21, power: 3 },
        Term { value: -147, power: 1 },
        Term { value: 126, power: 0 },
    ]);
    assert_eq!(Solver::checked_solve(&p), Some(vec![-3, 1, 2]));
}

#[test]
fn generated_terms_are_read_back_in_order() {
    let mut state: u64 = 0x2545_f491_4f6c_dd1d;
    let mut draw = move || {
        state ^= state << 13;
        state ^= state >> 7;
        state ^= state << 17;
        state
    };
    for round in 0..300 {
        let count = 2 + (draw() % 6) as usize;
        let mut terms = Vec::new();
        let mut text = String::new();
        for i in 0..count {
            let value = match draw() % 5 {
                0 => 0,
                1 => i32::MAX,
                2 => -i32::MAX,
                3 => (draw() % 1000) as i32,
                _ => -((draw() % 1_000_000) as i32),
            };
            let power = match draw() % 4 {
                0 => 0,
                1 => 1,
                2 => u32::MAX,
                _ => (draw() % 200) as u32,
            };
            if value < 0 {
                text.push_str(if round % 2 == 0 { "-" } else { " - " });
            } else if i > 0 || round % 3 == 0 {
                text.push_str(if round % 2 == 0 { "+" } else { " + " });
            }
            text.push_str(&format!("{}x^{}", value.unsigned_abs(), power));
            terms.push(Term { value, power });
        }
        assert_eq!(Parser::parse(&text).unwrap(), Polynomial(terms), "{}", text);
    }
}

#[test]
fn the_least_coefficient_cannot_be_written() {
    assert_eq!(
        Parser::parse("-2147483648x").unwrap(),
        Polynomial(vec![Term { value: -1, power: 1 }])
    );
    assert_eq!(
        Parser::parse("-2147483647x").unwrap(),
        Polynomial(vec![Term { value: -2147483647, power: 1 }])
    );
}

#[test]
fn digits_after_the_variable_are_its_exponent() {
    assert_eq!(Parser::parse("2x3").unwrap(), Polynomial(vec![Term { value: 2, power: 3 }]));
}

#[test]
fn a_sign_with_nothing_behind_it_is_a_missing_term() {
    assert!(matches!(Parser::parse("2x +"), Err(ParserError::MissingTerm(1))));
    assert!(matches!(Parser::parse("2x+"), Err(ParserError::MissingTerm(1))));
    assert!(matches!(Parser::parse("2x -"), Err(ParserError::MissingTerm(1))));
    assert!(matches!(Parser::parse("2x + 3 -"), Err(ParserError::MissingTerm(2))));
    assert!(matches!(Parser::parse("2x + - 3"), Err(ParserError::MissingTerm(1))));
    assert!(matches!(Parser::parse("-"), Err(ParserError::MissingTerm(0))));
    assert!(matches!(Parser::parse("+"), Err(ParserError::MissingTerm(0))));
    assert!(matches!(Parser::parse(" + "), Err(ParserError::MissingTerm(0))));
    assert_eq!(
        Parser::parse("2x +").unwrap_err().message(),
        "Parser Error: Missing Term in group 1"
    );
}

#[test]
fn text_that_starts_with_no_term_is_a_missing_term() {
    assert!(matches!(Parser::parse("(2x  + 2)(2x  - 2)"), Err(ParserError::MissingTerm(0))));
    assert!(matches!(Parser::parse("[[[[[[]]]]]"), Err(ParserError::MissingTerm(0))));
    assert!(matches!(Parser::parse("*2x"), Err(ParserError::MissingTerm(0))));
}

#[test]
fn malformed_texts_fail_each_in_its_way() {
    assert!(matches!(Parser::parse("1000"), Err(ParserError::IsScalar(1000))));
    assert!(matches!(Parser::parse("-5"), Err(ParserError::IsScalar(-5))));
    assert!(matches!(Parser::parse("+5"), Err(ParserError::IsScalar(5))));
    match Parser::parse("asdasd") {
        Err(ParserError::InvalidTerm(text)) => assert_eq!(text, "s"),
        other => panic!("unexpected {:?}", other),
    }
    match Parser::parse("2x - ^2  2x") {
        Err(ParserError::InvalidTerm(text)) => assert_eq!(text, "x"),
        other => panic!("unexpected {:?}", other),
    }
    match Parser::parse("2x + 2 - 2x asd") {
        Err(ParserError::InvalidTerm(text)) => assert_eq!(text, "a"),
        other => panic!("unexpected {:?}", other),
    }
    match Parser::parse("2x  / 2 - 2x") {
        Err(ParserError::InvalidTerm(text)) => assert_eq!(text, "2"),
        other => panic!("unexpected {:?}", other),
    }
}

#[test]
fn clients_are_told_what_is_wrong() {
    assert_eq!(Parser::parse("").unwrap_err().client_message(), "Polynomial is empty!");
    assert_eq!(Parser::parse("42").unwrap_err().client_message(), "Polynomial is scalar value: 42");
    assert_eq!(
        Parser::parse("2x 3x").unwrap_err().client_message(),
        "Polynomial has invalid term x"
    );
    assert_eq!(ParserError::MissingTerm(3).client_message(), "Polynomial has missing term 3");
}

#[test]
fn a_first_term_may_be_written_with_a_plus() {
    assert_eq!(
        Parser::parse("+3x^2-5x^1+0x^0").unwrap(),
        Polynomial(vec![
            Term { value: 3, power: 2 },
            Term { value: -5, power: 1 },
            Term { value: 0, power: 0 },
        ])
    );
    assert_eq!(Parser::parse("+7x^4").unwrap(), Polynomial(vec![Term { value: 7, power: 4 }]));
    assert_eq!(
        Parser::parse("+2147483647x^4294967295 + 1x^0").unwrap(),
        Polynomial(vec![Term { value: i32::MAX, power: u32::MAX }, Term { value: 1, power: 0 }])
    );
}

#[test]
fn the_order_of_the_terms_does_not_change_the_roots() {
    let written = Parser::parse("21x^3 - 147x + 126").unwrap();
    let turned = Parser::parse("126 - 147x + 21x^3").unwrap();
    let mixed = Parser::parse("-147x + 126 + 21x^3").unwrap();
    for x in -10..=10 {
        assert_eq!(written.evaluate(x), turned.evaluate(x));
        assert_eq!(written.has_x_intercept(x), mixed.has_x_intercept(x));
    }
    assert_eq!(Solver::solve(&turned), vec![-3, 1, 2]);
    assert_eq!(Solver::solve(&mixed), vec![-3, 1, 2]);
}
