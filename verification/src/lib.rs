//! Classification of mail messages against sender and subject rules.
//!
//! A raw message gives its `From` and `Subject` header lines (`headers`), the `From`
//! line gives the sender's address in canonical form (`address`), and the first rule
//! of an ordered rule set whose two patterns accept address and subject is the match
//! (`matching`, `rules`, `classify`).
//!
//! Every contract is stated over `Seq<char>`, the view of `str` and `String`; `text`
//! holds the operations on it. What is assumed of the standard library stands in
//! `stdlib`.

pub mod address;
pub mod classify;
pub mod config;
pub mod headers;
pub mod matching;
pub mod rules;
pub mod stdlib;
pub mod text;
