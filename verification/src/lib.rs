//! Integer polynomials read from text and their integer roots in a fixed
//! window, with a few smaller pieces beside them: numbers in words, FizzBuzz,
//! and random chord sheets with the player that walks them.

pub mod decimal;
pub mod fizz_buzz;
pub mod laws;
pub mod numbers_to_words;
pub mod parser;
pub mod polynomial;
pub mod scanner;
pub mod solver;
pub mod text;
pub mod tone_gen;
pub mod validation;
pub mod wall_spacer;
