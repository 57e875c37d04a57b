//! Whole numbers spelled out in English words, up to one quadrillion.

use crate::decimal::{parse_signed, signed_value};
use crate::validation::{InputError, Validator};
use vstd::prelude::*;
use vstd::string::*;

verus! {

/// The greatest number that has words.
pub const LARGEST: i64 = 1_000_000_000_000_000;

/// The word for a number that has one of its own: 0 to 20 and the tens up to
/// 90. Empty for every other number.
pub open spec fn own_word(n: int) -> Seq<char> {
    if n == 0 {
        "zero"@
    } else if n == 1 {
        "one"@
    } else if n == 2 {
        "two"@
    } else if n == 3 {
        "three"@
    } else if n == 4 {
        "four"@
    } else if n == 5 {
        "five"@
    } else if n == 6 {
        "six"@
    } else if n == 7 {
        "seven"@
    } else if n == 8 {
        "eight"@
    } else if n == 9 {
        "nine"@
    } else if n == 10 {
        "ten"@
    } else if n == 11 {
        "eleven"@
    } else if n == 12 {
        "twelve"@
    } else if n == 13 {
        "thirteen"@
    } else if n == 14 {
        "fourteen"@
    } else if n == 15 {
        "fifteen"@
    } else if n == 16 {
        "sixteen"@
    } else if n == 17 {
        "seventeen"@
    } else if n == 18 {
        "eighteen"@
    } else if n == 19 {
        "nineteen"@
    } else if n == 20 {
        "twenty"@
    } else if n == 30 {
        "thirty"@
    } else if n == 40 {
        "forty"@
    } else if n == 50 {
        "fifty"@
    } else if n == 60 {
        "sixty"@
    } else if n == 70 {
        "seventy"@
    } else if n == 80 {
        "eighty"@
    } else if n == 90 {
        "ninety"@
    } else {
        Seq::empty()
    }
}

/// Whether `n` has a word of its own.
pub open spec fn has_own_word(n: int) -> bool {
    0 <= n <= 20 || (n < 100 && n % 10 == 0)
}

/// What joins a round part to the rest below it: `and` where the rest is
/// below `limit`, nothing otherwise.
pub open spec fn joiner(rest: int, limit: int) -> Seq<char> {
    if rest < limit {
        "and "@
    } else {
        Seq::empty()
    }
}

/// The words of a multiple of a unit: the count of units, then the unit's name.
pub open spec fn round_words(count: Seq<char>, name: Seq<char>) -> Seq<char> {
    count + " "@ + name
}

/// The words of a number that is no multiple of its unit: the words of the
/// multiple below it, what joins, and the words of the rest.
pub open spec fn mixed_words(round: Seq<char>, joint: Seq<char>, rest: Seq<char>) -> Seq<char> {
    round + " "@ + joint + rest
}

/// `n` in words. A number below zero or above one quadrillion is no valid number.
pub open spec fn words(n: int) -> Seq<char>
    decreases n,
{
    if n < 0 || n > LARGEST {
        "Invalid number"@
    } else if has_own_word(n) {
        own_word(n)
    } else if n < 100 {
        words(n - n % 10) + " "@ + words(n % 10)
    } else if n < 1000 {
        if n % 100 == 0 {
            words(n / 100) + " hundred"@
        } else {
            words(n - n % 100) + " and "@ + words(n % 100)
        }
    } else if n < 1_000_000 {
        if n % 1_000 == 0 {
            round_words(words(n / 1_000), "thousand"@)
        } else {
            mixed_words(words(n - n % 1_000), joiner(n % 1_000, 100), words(n % 1_000))
        }
    } else if n < 1_000_000_000 {
        if n % 1_000_000 == 0 {
            round_words(words(n / 1_000_000), "million"@)
        } else {
            mixed_words(
                words(n - n % 1_000_000),
                joiner(n % 1_000_000, 1_000),
                words(n % 1_000_000),
            )
        }
    } else if n < 1_000_000_000_000 {
        if n % 1_000_000_000 == 0 {
            round_words(words(n / 1_000_000_000), "billion"@)
        } else {
            mixed_words(
                words(n - n % 1_000_000_000),
                joiner(n % 1_000_000_000, 1_000_000),
                words(n % 1_000_000_000),
            )
        }
    } else if n < 1_000_000_000_000_000 {
        if n % 1_000_000_000_000 == 0 {
            round_words(words(n / 1_000_000_000_000), "trillion"@)
        } else {
            mixed_words(
                words(n - n % 1_000_000_000_000),
                joiner(n % 1_000_000_000_000, 1_000_000_000),
                words(n % 1_000_000_000_000),
            )
        }
    } else {
        round_words(words(n / 1_000_000_000_000_000), "quadrillion"@)
    }
}

/// The words of `n` by units of `unit`: the count of units and the unit's
/// name where `n` is a multiple of the unit, else the multiple below `n`,
/// what joins, and the rest.
pub open spec fn rendered(n: int, unit: int, limit: int, name: Seq<char>) -> Seq<char> {
    if n % unit == 0 {
        round_words(words(n / unit), name)
    } else {
        mixed_words(words(n - n % unit), joiner(n % unit, limit), words(n % unit))
    }
}

/// Spells a number by units of `mod_val`: the count of units and the unit's
/// name, then what is left below the unit, joined by `and` where that is
/// below `delim_val`.
pub fn render_scaled(n: i64, mod_val: i64, delim_val: i64, mag: &str) -> (text: String)
    requires
        1 <= mod_val,
        0 <= n,
    ensures
        text@ == rendered(n as int, mod_val as int, delim_val as int, mag@),
    decreases
            n,
            (if mod_val == 1 || n < mod_val {
                2int
            } else {
                0int
            }),
{
    let mod_mag = n % mod_val;
    assert(0 <= mod_mag < mod_val && mod_mag <= n) by (nonlinear_arith)
        requires
            1 <= mod_val,
            0 <= n,
            mod_mag == n % mod_val,
    ;
    if mod_mag == 0 {
        assert(n / mod_val <= n && (2 <= mod_val <= n ==> n / mod_val < n)) by (nonlinear_arith)
            requires
                1 <= mod_val,
                0 <= n,
        ;
        let mut text = number_words(n / mod_val);
        text.append(" ");
        text.append(mag);
        return text;
    }
    let mut text = number_words(n - mod_mag);
    text.append(" ");
    if mod_mag < delim_val {
        text.append("and ");
    }
    let rest = number_words(mod_mag);
    text.append(rest.as_str());
    assert(text@ == words(n - mod_mag) + " "@ + joiner(mod_mag as int, delim_val as int) + words(
        mod_mag as int,
    ));
    text
}

/// Spells `n` in words.
pub fn number_words(n: i64) -> (text: String)
    ensures
        text@ == words(n as int),
    decreases n, 1int,
{
    if n < 0 || n > LARGEST {
        return String::from_str("Invalid number");
    }
    if n <= 20 || (n < 100 && n % 10 == 0) {
        return own_word_of(n);
    }
    if n < 100 {
        let mod_ten = n % 10;
        let mut text = number_words(n - mod_ten);
        text.append(" ");
        let rest = number_words(mod_ten);
        text.append(rest.as_str());
        text
    } else if n < 1000 {
        let mod_hundred = n % 100;
        if mod_hundred == 0 {
            let mut text = number_words(n / 100);
            text.append(" hundred");
            return text;
        }
        let mut text = number_words(n - mod_hundred);
        text.append(" and ");
        let rest = number_words(mod_hundred);
        text.append(rest.as_str());
        text
    } else if n < 1_000_000 {
        render_scaled(n, 1_000, 100, "thousand")
    } else if n < 1_000_000_000 {
        render_scaled(n, 1_000_000, 1_000, "million")
    } else if n < 1_000_000_000_000 {
        render_scaled(n, 1_000_000_000, 1_000_000, "billion")
    } else if n < 1_000_000_000_000_000 {
        render_scaled(n, 1_000_000_000_000, 1_000_000_000, "trillion")
    } else {
        render_scaled(n, LARGEST, 1_000_000_000_000, "quadrillion")
    }
}

fn own_word_of(n: i64) -> (text: String)
    requires
        has_own_word(n as int),
    ensures
        text@ == own_word(n as int),
{
    match n {
        0 => String::from_str("zero"),
        1 => String::from_str("one"),
        2 => String::from_str("two"),
        3 => String::from_str("three"),
        4 => String::from_str("four"),
        5 => String::from_str("five"),
        6 => String::from_str("six"),
        7 => String::from_str("seven"),
        8 => String::from_str("eight"),
        9 => String::from_str("nine"),
        10 => String::from_str("ten"),
        11 => String::from_str("eleven"),
        12 => String::from_str("twelve"),
        13 => String::from_str("thirteen"),
        14 => String::from_str("fourteen"),
        15 => String::from_str("fifteen"),
        16 => String::from_str("sixteen"),
        17 => String::from_str("seventeen"),
        18 => String::from_str("eighteen"),
        19 => String::from_str("nineteen"),
        20 => String::from_str("twenty"),
        30 => String::from_str("thirty"),
        40 => String::from_str("forty"),
        50 => String::from_str("fifty"),
        60 => String::from_str("sixty"),
        70 => String::from_str("seventy"),
        80 => String::from_str("eighty"),
        90 => String::from_str("ninety"),
        _ => String::new(),
    }
}

/// A number that can be spelled out.
pub struct NumberToWords<N>(N);

impl<N> NumberToWords<N> {
    /// The number that is held.
    pub closed spec fn number(self) -> N {
        self.0
    }

    pub fn new(input: N) -> (r: Self)
        ensures
            r.number() == input,
    {
        NumberToWords(input)
    }
}

impl NumberToWords<i64> {
    /// The number spelled by units of `mod_val`.
    pub fn render(&self, mod_val: i64, delim_val: i64, mag: &str) -> (text: String)
        requires
            1 <= mod_val,
            0 <= self.number(),
        ensures
            text@ == rendered(self.number() as int, mod_val as int, delim_val as int, mag@),
    {
        render_scaled(self.0, mod_val, delim_val, mag)
    }

    /// The number in words.
    pub fn to_words(&self) -> (text: String)
        ensures
            text@ == words(self.number() as int),
    {
        number_words(self.0)
    }
}

impl Validator for NumberToWords<i64> {
    type Bounds = i64;

    type Output = NumberToWords<i64>;

    type Error = InputError<i64>;

    /// Reads a number from `input` and holds it to the bounds.
    fn validate(input: String, low: i64, high: i64) -> (r: Result<Self::Output, Self::Error>)
        ensures
            match signed_value(input@, i64::MIN as int, i64::MAX as int) {
                None => r matches Err(InputError::ParseError(text)) && text@ == input@,
                Some(v) => if v < low || v > high {
                    r == Err::<Self::Output, Self::Error>(InputError::ValidationError(v as i64))
                } else {
                    r matches Ok(held) && held.number() == v
                },
            },
    {
        match parse_signed(input.as_str()) {
            None => Err(InputError::ParseError(input)),
            Some(val) => if val < low || val > high {
                Err(InputError::ValidationError(val))
            } else {
                Ok(NumberToWords::new(val))
            },
        }
    }
}

/// A number that can be spelled out.
pub struct NumbersToWords<N>(N);

impl<N> NumbersToWords<N> {
    /// The number that is held.
    pub closed spec fn number(self) -> N {
        self.0
    }

    pub fn new(input: N) -> (r: Self)
        ensures
            r.number() == input,
    {
        NumbersToWords(input)
    }
}

impl NumbersToWords<i64> {
    /// The number spelled by units of `mod_val`.
    pub fn render(&self, mod_val: i64, delim_val: i64, mag: &str) -> (text: String)
        requires
            1 <= mod_val,
            0 <= self.number(),
        ensures
            text@ == rendered(self.number() as int, mod_val as int, delim_val as int, mag@),
    {
        render_scaled(self.0, mod_val, delim_val, mag)
    }

    /// The number in words.
    pub fn to_words(&self) -> (text: String)
        ensures
            text@ == words(self.number() as int),
    {
        number_words(self.0)
    }
}

impl Validator for NumbersToWords<i64> {
    type Bounds = i64;

    type Output = NumbersToWords<i64>;

    type Error = InputError<i64>;

    /// Reads a number from `input` and holds it to the bounds.
    fn validate(input: String, low: i64, high: i64) -> (r: Result<Self::Output, Self::Error>)
        ensures
            match signed_value(input@, i64::MIN as int, i64::MAX as int) {
                None => r matches Err(InputError::ParseError(text)) && text@ == input@,
                Some(v) => if v < low || v > high {
                    r == Err::<Self::Output, Self::Error>(InputError::ValidationError(v as i64))
                } else {
                    r matches Ok(held) && held.number() == v
                },
            },
    {
        match parse_signed(input.as_str()) {
            None => Err(InputError::ParseError(input)),
            Some(val) => if val < low || val > high {
                Err(InputError::ValidationError(val))
            } else {
                Ok(NumbersToWords::new(val))
            },
        }
    }
}

} // verus!
