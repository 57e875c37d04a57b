//! Reading a number from text and holding it to bounds.

use crate::decimal::{push_signed, signed_text};
use crate::text::{chars_of, string_of};
use vstd::prelude::*;

verus! {

/// Why a text was not accepted as a number.
#[derive(Debug)]
pub enum InputError<N> {
    /// The text, which is no number.
    ParseError(String),
    /// The number, which is out of bounds.
    ValidationError(N),
}

impl InputError<i64> {
    /// What the error has to say.
    pub open spec fn message_text(&self) -> Seq<char> {
        match self {
            InputError::ParseError(text) => text@ + " cannot be parsed"@,
            InputError::ValidationError(v) => signed_text(*v as int) + " is not a valid number"@,
        }
    }

    /// The error as a sentence.
    pub fn message(&self) -> (text: String)
        ensures
            text@ == self.message_text(),
    {
        let mut out: Vec<char> = Vec::new();
        let tail = match self {
            InputError::ParseError(text) => {
                out = chars_of(text.as_str());
                chars_of(" cannot be parsed")
            },
            InputError::ValidationError(v) => {
                push_signed(&mut out, *v);
                chars_of(" is not a valid number")
            },
        };
        let mut i: usize = 0;
        let ghost head = out@;
        while i < tail.len()
            invariant
                i <= tail.len(),
                out@ == head + tail@.take(i as int),
            decreases tail.len() - i,
        {
            out.push(tail[i]);
            assert(tail@.take(i + 1) == tail@.take(i as int).push(tail@[i as int]));
            i = i + 1;
        }
        assert(tail@.take(tail.len() as int) == tail@);
        string_of(&out)
    }
}

/// A type that is made from text by reading a value and holding it to bounds.
pub trait Validator {
    type Bounds;

    type Output;

    type Error;

    fn validate(input: String, low: Self::Bounds, high: Self::Bounds) -> Result<
        Self::Output,
        Self::Error,
    >;
}

} // verus!
