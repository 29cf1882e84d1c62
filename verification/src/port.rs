use vstd::prelude::*;

verus! {

/// `c` is one of the ASCII digits `0` to `9`.
pub open spec fn is_decimal_digit(c: char) -> bool {
    '0' <= c && c <= '9'
}

/// The number that a string of decimal digits writes.
pub open spec fn decimal_value(d: Seq<char>) -> nat
    decreases d.len(),
{
    if d.len() == 0 {
        0
    } else {
        decimal_value(d.drop_last()) * 10 + ((d.last() as int) - ('0' as int)) as nat
    }
}

/// The digits of a port number: the text without one leading `+`, if it has one.
pub open spec fn port_digits(s: Seq<char>) -> Seq<char> {
    if s.len() > 0 && s[0] == '+' {
        s.drop_first()
    } else {
        s
    }
}

/// The port number that a text writes: an optional `+` followed by one or
/// more decimal digits whose value fits in 16 bits. Any other text (a sign
/// alone, a `-`, spaces, other characters, a larger number) writes none.
pub open spec fn port_value(s: Seq<char>) -> Option<u16> {
    let d = port_digits(s);
    if d.len() > 0 && (forall|i: int| 0 <= i < d.len() ==> is_decimal_digit(#[trigger] d[i]))
        && decimal_value(d) <= u16::MAX {
        Some(decimal_value(d) as u16)
    } else {
        None
    }
}

/// Reads a port number with `str::parse::<u16>` (`u16::from_str`).
/// Trusted: its documentation says that it accepts exactly an optional `+`
/// sign followed by decimal digits, and fails on anything else and on
/// values above `u16::MAX`; `port_value` states that.
#[verifier::external_body]
pub(crate) fn parse_port(s: &str) -> (r: Option<u16>)
    ensures
        r == port_value(s@),
{
    s.parse::<u16>().ok()
}

} // verus!
