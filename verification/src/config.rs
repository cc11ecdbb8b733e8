//! The settings of a mailbox connection.

use vstd::prelude::*;
use crate::text::chars::chars_of;

verus! {

/// What connecting to a mailbox takes.
#[derive(Clone, Debug, PartialEq, Eq)]
pub struct EmailConfig {
    pub server: String,
    pub port: u16,
    pub username: String,
    pub password: String,
}

/// The settings as the environment gives them.
#[derive(Clone, Debug, PartialEq, Eq)]
pub struct EnvConfig {
    pub server: String,
    pub port: u16,
    pub username: String,
    pub password: String,
}

/// Whether `c` is one of the digits `0` to `9`.
pub open spec fn is_digit(c: char) -> bool {
    '0' <= c <= '9'
}

/// The number that the decimal digits `digits` write.
pub open spec fn decimal_value(digits: Seq<char>) -> int
    decreases digits.len(),
{
    if digits.len() == 0 {
        0
    } else {
        10 * decimal_value(digits.drop_last()) + (digits.last() as int - '0' as int)
    }
}

/// The digits of a port number text: the text without its `+` sign, if it has one.
pub open spec fn unsigned_part(text: Seq<char>) -> Seq<char> {
    if text.len() > 0 && text[0] == '+' {
        text.skip(1)
    } else {
        text
    }
}

/// The port that `text` writes: `text` is an optional `+` and then one or more
/// decimal digits whose number is at most 65535.
pub open spec fn port_of(text: Seq<char>) -> Option<u16> {
    let digits = unsigned_part(text);
    if digits.len() > 0 && (forall|i: int| 0 <= i < digits.len() ==> is_digit(#[trigger] digits[i]))
        && decimal_value(digits) <= u16::MAX {
        Some(decimal_value(digits) as u16)
    } else {
        None
    }
}

/// The connection settings made of the four values.
pub fn load_email_config(server: String, port: u16, username: String, password: String) -> (r:
    EmailConfig)
    ensures
        r.server == server,
        r.port == port,
        r.username == username,
        r.password == password,
{
    EmailConfig { server, port, username, password }
}

/// Reads a port number.
pub fn parse_port(text: &str) -> (r: Option<u16>)
    ensures
        r == port_of(text@),
{
    let chars: Vec<char> = chars_of(text);
    let start: usize = if chars.len() > 0 && chars[0] == '+' {
        1
    } else {
        0
    };
    if start == chars.len() {
        return None;
    }
    let ghost digits = unsigned_part(text@);
    let mut value: u32 = 0;
    let mut too_large: bool = false;
    let mut i: usize = start;
    while i < chars.len()
        invariant
            start <= i <= chars.len(),
            digits == chars@.skip(start as int),
            digits == unsigned_part(text@),
            forall|j: int| 0 <= j < i - start ==> is_digit(#[trigger] digits[j]),
            !too_large ==> value == decimal_value(digits.take(i - start)),
            too_large ==> decimal_value(digits.take(i - start)) > u16::MAX,
            value <= u16::MAX,
        decreases chars.len() - i,
    {
        let c: char = chars[i];
        assert(digits[i - start] == c);
        if !('0' <= c && c <= '9') {
            return None;
        }
        assert(digits.take(i - start + 1).drop_last() == digits.take(i - start));
        if !too_large {
            value = value * 10 + (c as u32 - '0' as u32);
            if value > 65535 {
                too_large = true;
                value = 0;
            }
        }
        i += 1;
    }
    assert(digits.take(digits.len() as int) == digits);
    if too_large {
        None
    } else {
        Some(value as u16)
    }
}

} // verus!
