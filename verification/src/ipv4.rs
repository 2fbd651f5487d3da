use vstd::prelude::*;
use crate::text::{canonical_decimal, law_decimal_is_canonical, decimal, parse_u8, split_on, lemma_split_join, lemma_split_no_sep, lemma_decimal_digits, lemma_parse_decimal};

verus! {

/// The bytes of `s` read piece by piece between dots, each piece as
/// `str::parse::<u8>` reads it; `None` when some piece is not a byte.
pub open spec fn ipv4_bytes(s: Seq<char>) -> Option<Seq<u8>> {
    let parts = split_on(s, '.');
    if forall|i: int| 0 <= i < parts.len() ==> (#[trigger] parse_u8(parts[i])) is Some {
        Some(parts.map_values(|p: Seq<char>| parse_u8(p).unwrap()))
    } else {
        None
    }
}

/// Dotted-decimal notation of the first four bytes of `b`.
pub open spec fn dotted_quad(b: Seq<u8>) -> Seq<char> {
    decimal(b[0] as nat) + seq!['.'] + decimal(b[1] as nat) + seq!['.'] + decimal(b[2] as nat)
        + seq!['.'] + decimal(b[3] as nat)
}

/// The address that a client registration carries, read back from its
/// dotted-decimal notation, is the address that was written.
pub proof fn law_ipv4_round_trip(b: Seq<u8>)
    requires
        b.len() == 4,
    ensures
        ipv4_bytes(dotted_quad(b)) == Some(b),
{
    let d0 = decimal(b[0] as nat);
    let d1 = decimal(b[1] as nat);
    let d2 = decimal(b[2] as nat);
    let d3 = decimal(b[3] as nat);
    lemma_decimal_digits(b[0] as nat);
    lemma_decimal_digits(b[1] as nat);
    lemma_decimal_digits(b[2] as nat);
    lemma_decimal_digits(b[3] as nat);
    lemma_split_no_sep(d0, '.');
    lemma_split_no_sep(d1, '.');
    lemma_split_no_sep(d2, '.');
    lemma_split_no_sep(d3, '.');
    let x1 = d0 + seq!['.'] + d1;
    let x2 = x1 + seq!['.'] + d2;
    lemma_split_join(d0, d1, '.');
    lemma_split_join(x1, d2, '.');
    lemma_split_join(x2, d3, '.');
    let parts = split_on(dotted_quad(b), '.');
    assert(parts =~= seq![d0, d1, d2, d3]);
    lemma_parse_decimal(b[0]);
    lemma_parse_decimal(b[1]);
    lemma_parse_decimal(b[2]);
    lemma_parse_decimal(b[3]);
    assert forall|i: int| 0 <= i < parts.len() implies (#[trigger] parse_u8(parts[i])) is Some by {
        if i == 0 {
        } else if i == 1 {
        } else if i == 2 {
        } else {
        }
    }
    assert(parts.map_values(|p: Seq<char>| parse_u8(p).unwrap()) =~= b);
}

/// The dotted-decimal notation of an address has four fields, each the
/// canonical decimal of its byte (no leading zero).
pub proof fn law_dotted_quad_fields(b: Seq<u8>)
    requires
        b.len() == 4,
    ensures
        split_on(dotted_quad(b), '.').len() == 4,
        forall|i: int| 0 <= i < 4 ==> canonical_decimal(#[trigger] split_on(dotted_quad(b), '.')[i], b[i] as nat),
{
    let d0 = decimal(b[0] as nat);
    let d1 = decimal(b[1] as nat);
    let d2 = decimal(b[2] as nat);
    let d3 = decimal(b[3] as nat);
    lemma_decimal_digits(b[0] as nat);
    lemma_decimal_digits(b[1] as nat);
    lemma_decimal_digits(b[2] as nat);
    lemma_decimal_digits(b[3] as nat);
    law_decimal_is_canonical(b[0] as nat);
    law_decimal_is_canonical(b[1] as nat);
    law_decimal_is_canonical(b[2] as nat);
    law_decimal_is_canonical(b[3] as nat);
    lemma_split_no_sep(d0, '.');
    lemma_split_no_sep(d1, '.');
    lemma_split_no_sep(d2, '.');
    lemma_split_no_sep(d3, '.');
    let x1 = d0 + seq!['.'] + d1;
    let x2 = x1 + seq!['.'] + d2;
    lemma_split_join(d0, d1, '.');
    lemma_split_join(x1, d2, '.');
    lemma_split_join(x2, d3, '.');
    let parts = split_on(dotted_quad(b), '.');
    assert(parts =~= seq![d0, d1, d2, d3]);
    assert forall|i: int| 0 <= i < 4 implies canonical_decimal(#[trigger] parts[i], b[i] as nat) by {
        if i == 0 {
        } else if i == 1 {
        } else if i == 2 {
        } else {
        }
    }
}

/// Re-rendering an address read from a dotted-decimal string, and reading it
/// again, gives the same bytes.
pub proof fn law_ipv4_reading_is_stable(s: Seq<char>)
    requires
        ipv4_bytes(s) matches Some(b) && b.len() == 4,
    ensures
        ipv4_bytes(dotted_quad(ipv4_bytes(s).unwrap())) == ipv4_bytes(s),
{
    law_ipv4_round_trip(ipv4_bytes(s).unwrap());
}

} // verus!
