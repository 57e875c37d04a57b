//! From text to a polynomial: cleaning, interpreting the captures, validating.

use crate::decimal::{
    decimal_text, decimal_value, parse_decimal, push_decimal, push_signed, signed_text,
};
use crate::polynomial::{Polynomial, Term};
use crate::scanner::{capture_views, scan, scanned, Capture, RawCapture};
use crate::text::{chars_of, string_of};
use vstd::prelude::*;
use vstd::string::*;

verus! {

/// Why a text is no polynomial.
#[derive(Debug)]
pub enum ParserError {
    /// The text holds no term.
    EmptyPolynomial,
    /// The text holds a single constant, which is given.
    IsScalar(i32),
    /// A term other than the first has no sign in front; its text is given.
    InvalidTerm(String),
    /// The capture at the given position holds no term: nothing stands
    /// behind its sign, or where a term was looked for.
    MissingTerm(usize),
}

/// A parser error as plain values.
pub enum Failure {
    EmptyPolynomial,
    IsScalar(int),
    InvalidTerm(Seq<char>),
    MissingTerm(nat),
}

impl View for ParserError {
    type V = Failure;

    open spec fn view(&self) -> Failure {
        match self {
            ParserError::EmptyPolynomial => Failure::EmptyPolynomial,
            ParserError::IsScalar(v) => Failure::IsScalar(*v as int),
            ParserError::InvalidTerm(t) => Failure::InvalidTerm(t@),
            ParserError::MissingTerm(i) => Failure::MissingTerm(*i as nat),
        }
    }
}

impl Failure {
    /// The failure as a sentence.
    pub open spec fn message(self) -> Seq<char> {
        match self {
            Failure::EmptyPolynomial => "Parser Error: polynomial is empty"@,
            Failure::IsScalar(v) => "Parser Error: polynomial is scaler "@ + signed_text(v),
            Failure::InvalidTerm(t) => "Parser Error: invalid term "@ + t,
            Failure::MissingTerm(i) => "Parser Error: Missing Term in group "@ + decimal_text(i),
        }
    }
}

impl Failure {
    /// What a client is told of the failure.
    pub open spec fn client_message(self) -> Seq<char> {
        match self {
            Failure::EmptyPolynomial => "Polynomial is empty!"@,
            Failure::IsScalar(v) => "Polynomial is scalar value: "@ + signed_text(v),
            Failure::InvalidTerm(t) => "Polynomial has invalid term "@ + t,
            Failure::MissingTerm(i) => "Polynomial has missing term "@ + decimal_text(i),
        }
    }
}

impl ParserError {
    /// What a client is told of the error.
    pub fn client_message(&self) -> (text: String)
        ensures
            text@ == self@.client_message(),
    {
        match self {
            ParserError::EmptyPolynomial => String::from_str("Polynomial is empty!"),
            ParserError::IsScalar(v) => {
                let mut digits: Vec<char> = Vec::new();
                push_signed(&mut digits, *v as i64);
                let mut text = String::from_str("Polynomial is scalar value: ");
                text.append(string_of(&digits).as_str());
                text
            },
            ParserError::InvalidTerm(t) => {
                let mut text = String::from_str("Polynomial has invalid term ");
                text.append(t.as_str());
                text
            },
            ParserError::MissingTerm(i) => {
                let mut digits: Vec<char> = Vec::new();
                push_decimal(&mut digits, *i as u64);
                let mut text = String::from_str("Polynomial has missing term ");
                text.append(string_of(&digits).as_str());
                text
            },
        }
    }

    /// The error as a sentence.
    pub fn message(&self) -> (text: String)
        ensures
            text@ == self@.message(),
    {
        match self {
            ParserError::EmptyPolynomial => String::from_str("Parser Error: polynomial is empty"),
            ParserError::IsScalar(v) => {
                let mut digits: Vec<char> = Vec::new();
                push_signed(&mut digits, *v as i64);
                let mut text = String::from_str("Parser Error: polynomial is scaler ");
                text.append(string_of(&digits).as_str());
                text
            },
            ParserError::InvalidTerm(t) => {
                let mut text = String::from_str("Parser Error: invalid term ");
                text.append(t.as_str());
                text
            },
            ParserError::MissingTerm(i) => {
                let mut digits: Vec<char> = Vec::new();
                push_decimal(&mut digits, *i as u64);
                let mut text = String::from_str("Parser Error: Missing Term in group ");
                text.append(string_of(&digits).as_str());
                text
            },
        }
    }
}

/// Whether `c` is white space: one of the characters with the Unicode
/// property White_Space. These are the tab, the line feed, the vertical tab,
/// the form feed, the carriage return, the blank, the next-line control, the
/// no-break space, the Ogham space mark, the spaces from the en quad to the
/// hair space, the line and the paragraph separator, the narrow no-break
/// space, the medium mathematical space and the ideographic space.
pub open spec fn is_white_space(c: char) -> bool {
    ||| '\u{9}' <= c && c <= '\u{d}'
    ||| c == '\u{20}'
    ||| c == '\u{85}'
    ||| c == '\u{a0}'
    ||| c == '\u{1680}'
    ||| '\u{2000}' <= c && c <= '\u{200a}'
    ||| c == '\u{2028}'
    ||| c == '\u{2029}'
    ||| c == '\u{202f}'
    ||| c == '\u{205f}'
    ||| c == '\u{3000}'
}

/// `char::is_whitespace` tells whether a character has the Unicode property
/// White_Space, which is the set that `is_white_space` spells out.
pub assume_specification[ char::is_whitespace ](c: char) -> (r: bool)
    ensures
        r == is_white_space(c),
;

/// `s` without its white space.
pub open spec fn cleaned(s: Seq<char>) -> Seq<char>
    decreases s.len(),
{
    if s.len() == 0 {
        s
    } else if is_white_space(s.last()) {
        cleaned(s.drop_last())
    } else {
        cleaned(s.drop_last()).push(s.last())
    }
}

/// The factor that a written sign stands for: -1 for `-`, 1 for anything else.
pub open spec fn sign_factor(sign: Seq<char>) -> int {
    if sign == seq!['-'] {
        -1
    } else {
        1
    }
}

/// The coefficient's magnitude: the digits read as a number of `i32`, and 1
/// where there are none or they spell no such number.
pub open spec fn magnitude_of(capture: Capture) -> int {
    match capture.coefficient {
        Some(digits) => match decimal_value(digits, i32::MAX as nat) {
            Some(v) => v as int,
            None => 1,
        },
        None => 1,
    }
}

/// Whether the capture holds no term: behind its sign, if it has one, there
/// are no digits, no variable symbol and no exponent.
pub open spec fn is_missing(capture: Capture) -> bool {
    match capture.body {
        None => true,
        Some(body) => body.len() == 0,
    }
}

/// The signed coefficient of the capture at position `index`, or why it has
/// none. A capture that holds no term is a missing term, whatever its sign; a
/// term without a sign is invalid unless it is the first.
pub open spec fn value_of(index: nat, capture: Capture) -> Result<int, Failure> {
    if is_missing(capture) {
        Err(Failure::MissingTerm(index))
    } else {
        match capture.sign {
            Some(sign) => Ok(magnitude_of(capture) * sign_factor(sign)),
            None => if index == 0 {
                Ok(magnitude_of(capture))
            } else {
                Err(Failure::InvalidTerm(capture.body->0))
            },
        }
    }
}

/// The exponent that goes without saying: 1 with a variable symbol, 0 without.
pub open spec fn implicit_power(capture: Capture) -> nat {
    match capture.variable {
        Some(symbol) => if symbol.len() == 0 {
            0
        } else {
            1
        },
        None => 0,
    }
}

/// The exponent of a capture: the digits read as a number of `u32`, and the
/// implicit exponent where there are none or they spell no such number.
pub open spec fn power_of(capture: Capture) -> nat {
    match capture.exponent {
        Some(digits) => match decimal_value(digits, u32::MAX as nat) {
            Some(v) => v,
            None => implicit_power(capture),
        },
        None => implicit_power(capture),
    }
}

/// The term of the capture at position `index`, or why it has none.
pub open spec fn term_of(index: nat, capture: Capture) -> Result<Term, Failure> {
    match value_of(index, capture) {
        Ok(v) => Ok(Term { value: v as i32, power: power_of(capture) as u32 }),
        Err(e) => Err(e),
    }
}

/// The terms of the captures in order, or the failure of the first capture
/// that has no term.
pub open spec fn terms_of(captures: Seq<Capture>) -> Result<Seq<Term>, Failure>
    decreases captures.len(),
{
    if captures.len() == 0 {
        Ok(Seq::empty())
    } else {
        match terms_of(captures.drop_last()) {
            Err(e) => Err(e),
            Ok(terms) => match term_of((captures.len() - 1) as nat, captures.last()) {
                Err(e) => Err(e),
                Ok(term) => Ok(terms.push(term)),
            },
        }
    }
}

/// What becomes of a list of terms, or of the failure to make one: no term is
/// an empty polynomial, a single constant is a scalar, anything else stands.
pub open spec fn validated(terms: Result<Seq<Term>, Failure>) -> Result<Seq<Term>, Failure> {
    match terms {
        Err(e) => Err(e),
        Ok(terms) => if terms.len() == 0 {
            Err(Failure::EmptyPolynomial)
        } else if terms.len() == 1 && terms[0].power == 0 {
            Err(Failure::IsScalar(terms[0].value as int))
        } else {
            Ok(terms)
        },
    }
}

/// The polynomial that a list of captures stands for, or why it stands for none.
pub open spec fn interpreted(captures: Seq<Capture>) -> Result<Seq<Term>, Failure> {
    validated(terms_of(captures))
}

/// The polynomial that a text stands for, or why it stands for none.
pub open spec fn parsed(input: Seq<char>) -> Result<Seq<Term>, Failure> {
    interpreted(scanned(cleaned(input)))
}

/// A result of terms as plain values.
pub open spec fn terms_view(r: Result<Vec<Term>, ParserError>) -> Result<Seq<Term>, Failure> {
    match r {
        Ok(terms) => Ok(terms@),
        Err(e) => Err(e@),
    }
}

/// A result of a polynomial as plain values.
pub open spec fn polynomial_view(r: Result<Polynomial, ParserError>) -> Result<
    Seq<Term>,
    Failure,
> {
    match r {
        Ok(p) => Ok(p@),
        Err(e) => Err(e@),
    }
}

/// A result of a coefficient as plain values.
pub open spec fn value_view(r: Result<i32, ParserError>) -> Result<int, Failure> {
    match r {
        Ok(v) => Ok(v as int),
        Err(e) => Err(e@),
    }
}

/// Takes the white space out of `input`.
pub fn clean(input: &str) -> (text: String)
    ensures
        text@ == cleaned(input@),
{
    let chars = chars_of(input);
    let mut kept: Vec<char> = Vec::new();
    let mut i: usize = 0;
    while i < chars.len()
        invariant
            i <= chars.len(),
            kept@ == cleaned(chars@.take(i as int)),
        decreases chars.len() - i,
    {
        let c = chars[i];
        assert(chars@.take(i + 1).drop_last() == chars@.take(i as int));
        if !c.is_whitespace() {
            kept.push(c);
        }
        i = i + 1;
    }
    assert(chars@.take(chars.len() as int) == chars@);
    string_of(&kept)
}

fn implicit_power_of(capture: &RawCapture) -> (power: u32)
    ensures
        power == implicit_power(capture@),
{
    match &capture.variable {
        Some(symbol) => if symbol.as_str().unicode_len() == 0 {
            0
        } else {
            1
        },
        None => 0,
    }
}

pub struct Parser;

impl Parser {
    /// Reads a polynomial from text: white space is dropped, the rest is
    /// scanned into captures, and the captures are interpreted.
    pub fn parse(input: &str) -> (r: Result<Polynomial, ParserError>)
        ensures
            polynomial_view(r) == parsed(input@),
            r matches Ok(p) ==> p.well_formed(),
    {
        let text = clean(input);
        let captures = scan(text.as_str());
        Parser::interpret(&captures)
    }

    /// Turns captures into a polynomial, or fails with the first capture that
    /// has no term, or with what is wrong with the terms as a whole.
    pub fn interpret(captures: &Vec<RawCapture>) -> (r: Result<Polynomial, ParserError>)
        ensures
            polynomial_view(r) == interpreted(capture_views(captures@)),
            r matches Ok(p) ==> p.well_formed(),
    {
        let ghost views = capture_views(captures@);
        let mut terms: Vec<Term> = Vec::new();
        let mut failure: Option<ParserError> = None;
        let mut i: usize = 0;
        while i < captures.len() && failure.is_none()
            invariant
                views == capture_views(captures@),
                i <= captures.len(),
                failure is None ==> terms_of(views.take(i as int)) == Ok::<Seq<Term>, Failure>(
                    terms@,
                ),
                failure matches Some(e) ==> terms_of(views.take(i as int)) == Err::<
                    Seq<Term>,
                    Failure,
                >(e@),
            decreases captures.len() - i,
        {
            let ghost next = views.take(i + 1);
            assert(next.drop_last() == views.take(i as int));
            assert(next.last() == captures@[i as int]@);
            match Parser::parse_value(i, &captures[i]) {
                Ok(value) => {
                    let power = Parser::parse_power(&captures[i]);
                    terms.push(Term { value, power });
                },
                Err(e) => {
                    failure = Some(e);
                },
            }
            i = i + 1;
        }
        proof {
            if failure is None {
                assert(views.take(i as int) == views);
            } else {
                lemma_first_failure_stays(views, i as int);
            }
        }
        let collected = match failure {
            Some(e) => Err(e),
            None => Ok(terms),
        };
        match Parser::validate_polynomial(collected) {
            Ok(terms) => Ok(Polynomial(terms)),
            Err(e) => Err(e),
        }
    }

    /// The signed coefficient of the capture at position `index`. A capture
    /// with nothing behind its sign is a missing term; a term without a sign
    /// is an invalid term unless it is the first.
    pub fn parse_value(index: usize, capture: &RawCapture) -> (r: Result<i32, ParserError>)
        ensures
            value_view(r) == value_of(index as nat, capture@),
    {
        let raw_term = match &capture.body {
            Some(body) => body.clone(),
            None => {
                return Err(ParserError::MissingTerm(index));
            },
        };
        if raw_term.as_str().unicode_len() == 0 {
            return Err(ParserError::MissingTerm(index));
        }
        let sign: i32 = match &capture.sign {
            Some(sign) => {
                let chars = chars_of(sign.as_str());
                if chars.len() == 1 && chars[0] == '-' {
                    assert(chars@ == seq!['-']);
                    -1
                } else {
                    1
                }
            },
            None => if index == 0 {
                1
            } else {
                return Err(ParserError::InvalidTerm(raw_term));
            },
        };
        let magnitude: i32 = match &capture.coefficient {
            Some(digits) => match parse_decimal(digits.as_str(), 2147483647) {
                Some(v) => v as i32,
                None => 1,
            },
            None => 1,
        };
        assert(0 <= magnitude && (sign == 1 || sign == -1));
        Ok(magnitude * sign)
    }

    /// The exponent of a capture: its digits where they spell one, else 1
    /// with a variable symbol and 0 without.
    pub fn parse_power(capture: &RawCapture) -> (power: u32)
        ensures
            power == power_of(capture@),
    {
        let default_power = implicit_power_of(capture);
        match &capture.exponent {
            Some(digits) => match parse_decimal(digits.as_str(), 4294967295) {
                Some(v) => v as u32,
                None => default_power,
            },
            None => default_power,
        }
    }

    /// Hands a failure on, and refuses a list of no terms and a single constant.
    pub fn validate_polynomial(terms: Result<Vec<Term>, ParserError>) -> (r: Result<
        Vec<Term>,
        ParserError,
    >)
        ensures
            terms_view(r) == validated(terms_view(terms)),
            r matches Ok(kept) ==> terms == Ok::<Vec<Term>, ParserError>(kept),
            r matches Err(e) ==> (terms matches Err(given) ==> e == given),
    {
        let terms = match terms {
            Ok(terms) => terms,
            Err(e) => {
                return Err(e);
            },
        };
        if terms.len() == 0 {
            Err(ParserError::EmptyPolynomial)
        } else if terms.len() == 1 && terms[0].power == 0 {
            Err(ParserError::IsScalar(terms[0].value))
        } else {
            Ok(terms)
        }
    }
}

/// Once a capture has failed, the captures after it change nothing.
pub proof fn lemma_first_failure_stays(captures: Seq<Capture>, k: int)
    requires
        0 <= k <= captures.len(),
        terms_of(captures.take(k)) is Err,
    ensures
        terms_of(captures) == terms_of(captures.take(k)),
    decreases captures.len(),
{
    if k == captures.len() {
        assert(captures.take(k) == captures);
    } else {
        assert(captures.drop_last().take(k) == captures.take(k));
        lemma_first_failure_stays(captures.drop_last(), k);
    }
}

} // verus!
