//! Text as contracts see it: a sequence of characters. Each operation is a spec
//! function on `Seq<char>` and an executable function on `&[char]` proved against it.

pub mod casing;
pub mod chars;
pub mod classes;
pub mod search;
pub mod words;
