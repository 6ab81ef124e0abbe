//! UUIDs, held as the `u128` whose big-endian bytes they are.
use vstd::prelude::*;
use crate::digest::hex_digit;

verus! {

/// The value of a hex digit in either case.
pub open spec fn hex_value(c: char) -> Option<nat> {
    if '0' <= c && c <= '9' {
        Some((c as nat - '0' as nat) as nat)
    } else if 'a' <= c && c <= 'f' {
        Some((c as nat - 'a' as nat + 10) as nat)
    } else if 'A' <= c && c <= 'F' {
        Some((c as nat - 'A' as nat + 10) as nat)
    } else {
        None
    }
}

/// The number written by hex digits, most significant first, or nothing
/// when a character is not a hex digit.
pub open spec fn hex_number(h: Seq<char>) -> Option<nat>
    decreases h.len(),
{
    if h.len() == 0 {
        Some(0)
    } else {
        match (hex_number(h.drop_last()), hex_value(h.last())) {
            (Some(n), Some(d)) => Some(n * 16 + d),
            _ => None,
        }
    }
}

/// The 128-bit value of 32 hex digits.
pub open spec fn simple_uuid(h: Seq<char>) -> Option<u128> {
    if h.len() != 32 {
        None
    } else {
        match hex_number(h) {
            Some(n) => Some(n as u128),
            None => None,
        }
    }
}

/// The value of the hyphenated form `8-4-4-4-12`.
pub open spec fn hyphenated_uuid(s: Seq<char>) -> Option<u128> {
    if s.len() == 36 && s[8] == '-' && s[13] == '-' && s[18] == '-' && s[23] == '-' {
        simple_uuid(
            s.subrange(0, 8) + s.subrange(9, 13) + s.subrange(14, 18) + s.subrange(19, 23)
                + s.subrange(24, 36),
        )
    } else {
        None
    }
}

/// What `uuid::Uuid::parse_str` makes of a text, as its parser reads it:
/// 32 hex digits, the hyphenated form, the hyphenated form in braces, or
/// `urn:uuid:` (in any ASCII case) and the hyphenated form; hex digits in
/// either case.  Anything else is not a UUID.
pub open spec fn uuid_parse(s: Seq<char>) -> Option<u128> {
    if s.len() == 32 {
        simple_uuid(s)
    } else if s.len() == 36 {
        hyphenated_uuid(s)
    } else if s.len() == 38 && s[0] == '{' && s[37] == '}' {
        hyphenated_uuid(s.subrange(1, 37))
    } else if s.len() == 45 && s.take(9).map_values(|c: char| crate::text::ascii_lower(c))
        == "urn:uuid:"@ {
        hyphenated_uuid(s.skip(9))
    } else {
        None
    }
}

/// The `k`-th hex digit (from the most significant) of a 128-bit value.
pub open spec fn nibble(u: u128, k: int) -> nat {
    ((u >> ((31 - k) * 4) as u128) & 0xf) as nat
}

/// The 32 lowercase hex digits of `u`.
pub open spec fn uuid_hex(u: u128) -> Seq<char> {
    Seq::new(32, |k: int| hex_digit(nibble(u, k)))
}

/// The hyphenated lowercase form `8-4-4-4-12` that `Uuid`'s `Display` writes.
pub open spec fn uuid_text(u: u128) -> Seq<char> {
    let h = uuid_hex(u);
    h.subrange(0, 8) + seq!['-'] + h.subrange(8, 12) + seq!['-'] + h.subrange(12, 16) + seq!['-']
        + h.subrange(16, 20) + seq!['-'] + h.subrange(20, 32)
}

/// Calls `uuid::Uuid::parse_str` and takes the UUID's `u128` value (its
/// bytes read big-endian).  The contract states the parser's accepted shapes
/// and value as `uuid_parse` spells them out, and that the hyphenated
/// lowercase text of a UUID parses back to that UUID.
#[verifier::external_body]
pub fn parse_uuid(s: &str) -> (res: Option<u128>)
    ensures
        res == uuid_parse(s@),
        forall|u: u128| #[trigger] uuid_text(u) == s@ ==> res == Some(u),
{
    uuid::Uuid::parse_str(s).ok().map(|u| u.as_u128())
}

/// Calls `uuid::Uuid::from_u128(u).to_string()`, which writes the hyphenated
/// lowercase form.
#[verifier::external_body]
pub fn uuid_string(u: u128) -> (res: String)
    ensures
        res@ == uuid_text(u),
{
    uuid::Uuid::from_u128(u).to_string()
}

} // verus!
