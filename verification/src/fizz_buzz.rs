//! Fizz, Buzz, FizzBuzz or the number itself.

use crate::decimal::{push_signed, signed_text};
use crate::text::string_of;
use vstd::prelude::*;
use vstd::string::*;

verus! {

/// A number to be shown the FizzBuzz way.
pub struct FizzBuzzNumber<N>(N);

/// What stands for `n`: `FizzBuzz` for a multiple of fifteen, `Fizz` for
/// another multiple of three, `Buzz` for another multiple of five, and `n` in
/// decimal for the rest.
pub open spec fn fizz_buzz_text(n: int) -> Seq<char> {
    if n % 3 == 0 && n % 5 == 0 {
        "FizzBuzz"@
    } else if n % 3 == 0 {
        "Fizz"@
    } else if n % 5 == 0 {
        "Buzz"@
    } else {
        signed_text(n)
    }
}

/// The rule over the whole range: the multiples of both three and five are
/// the multiples of fifteen, and they alone are `FizzBuzz`; of the others the
/// multiples of three are `Fizz`, those of five `Buzz`, and the rest are
/// written in decimal.
pub proof fn lemma_fizz_buzz_by_fifteen(n: int)
    ensures
        (n % 3 == 0 && n % 5 == 0) <==> n % 15 == 0,
        n % 15 == 0 ==> fizz_buzz_text(n) == "FizzBuzz"@,
        n % 15 != 0 && n % 3 == 0 ==> fizz_buzz_text(n) == "Fizz"@,
        n % 15 != 0 && n % 5 == 0 ==> fizz_buzz_text(n) == "Buzz"@,
        n % 3 != 0 && n % 5 != 0 ==> fizz_buzz_text(n) == signed_text(n),
{
}

impl<N> FizzBuzzNumber<N> {
    /// The number that is held.
    pub closed spec fn number(self) -> N {
        self.0
    }

    pub fn new(number: N) -> (r: Self)
        ensures
            r.number() == number,
    {
        Self(number)
    }
}

impl FizzBuzzNumber<i32> {
    /// The text that stands for the number.
    pub fn render(&self) -> (text: String)
        ensures
            text@ == fizz_buzz_text(self.number() as int),
    {
        let n = self.0;
        if n % 3 == 0 && n % 5 == 0 {
            String::from_str("FizzBuzz")
        } else if n % 3 == 0 {
            String::from_str("Fizz")
        } else if n % 5 == 0 {
            String::from_str("Buzz")
        } else {
            let mut digits: Vec<char> = Vec::new();
            push_signed(&mut digits, n as i64);
            string_of(&digits)
        }
    }
}

} // verus!
