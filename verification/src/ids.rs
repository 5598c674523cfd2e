//! Correlation and instance identifiers.
//!
//! An identifier is a 128-bit value generated per request (or per spawned
//! instance) and carried by every wrapped message, so that a response can be
//! paired with the command it answers.  Its canonical text form is the
//! hyphenated lowercase-hex rendering (8-4-4-4-12 digits).

use vstd::prelude::*;
use crate::strutil::chars_to_string;

verus! {

/// A 128-bit unique identifier.
#[derive(PartialEq, Eq, Structural, Clone, Copy, Debug, Hash)]
pub struct Uid {
    pub bits: u128,
}

/// Relies on `uuid::Uuid::new_v4` / `Uuid::as_u128`: a fresh random 128-bit
/// value with the version nibble set to 4 and the variant bits set to `10`.
/// Nothing is assumed about the random bits.
#[verifier::external_body]
fn new_v4_bits() -> (r: u128)
    ensures
        (r >> 76) & 0xf == 4,
        (r >> 62) & 0x3 == 2,
{
    uuid::Uuid::new_v4().as_u128()
}

impl Uid {
    /// A freshly generated random identifier.
    pub fn fresh() -> (r: Uid)
        ensures
            (r.bits >> 76) & 0xf == 4,
            (r.bits >> 62) & 0x3 == 2,
    {
        Uid { bits: new_v4_bits() }
    }
}

/// The lowercase hex digit with value `d`.
pub open spec fn spec_hex_digit(d: int) -> char {
    if d == 0 { '0' } else if d == 1 { '1' } else if d == 2 { '2' }
    else if d == 3 { '3' } else if d == 4 { '4' } else if d == 5 { '5' }
    else if d == 6 { '6' } else if d == 7 { '7' } else if d == 8 { '8' }
    else if d == 9 { '9' } else if d == 10 { 'a' } else if d == 11 { 'b' }
    else if d == 12 { 'c' } else if d == 13 { 'd' } else if d == 14 { 'e' }
    else { 'f' }
}

/// `n` written as exactly `width` lowercase hex digits (most significant
/// first, truncated to the low `width` digits).
pub open spec fn enc_hex(n: int, width: nat) -> Seq<char>
    decreases width,
{
    if width == 0 {
        Seq::empty()
    } else {
        enc_hex(n / 16, (width - 1) as nat).push(spec_hex_digit(n % 16))
    }
}

pub proof fn lemma_enc_hex_len(n: int, width: nat)
    ensures
        enc_hex(n, width).len() == width,
    decreases width,
{
    if width > 0 {
        lemma_enc_hex_len(n / 16, (width - 1) as nat);
    }
}

/// The hyphenated text form of a 128-bit identifier: the 32 hex digits of
/// `b`, with hyphens after digits 8, 12, 16 and 20.
pub open spec fn spec_uid_chars(b: u128) -> Seq<char> {
    let h = enc_hex(b as int, 32);
    h.subrange(0, 8) + seq!['-'] + h.subrange(8, 12) + seq!['-'] + h.subrange(12, 16)
        + seq!['-'] + h.subrange(16, 20) + seq!['-'] + h.subrange(20, 32)
}

fn hex_digit_char(d: u128) -> (c: char)
    requires
        d < 16,
    ensures
        c == spec_hex_digit(d as int),
{
    if d == 0 { '0' } else if d == 1 { '1' } else if d == 2 { '2' }
    else if d == 3 { '3' } else if d == 4 { '4' } else if d == 5 { '5' }
    else if d == 6 { '6' } else if d == 7 { '7' } else if d == 8 { '8' }
    else if d == 9 { '9' } else if d == 10 { 'a' } else if d == 11 { 'b' }
    else if d == 12 { 'c' } else if d == 13 { 'd' } else if d == 14 { 'e' }
    else { 'f' }
}

fn push_hex(out: &mut Vec<char>, n: u128, width: u64)
    ensures
        final(out)@ == old(out)@ + enc_hex(n as int, width as nat),
    decreases width,
{
    if width == 0 {
        proof {
            assert(old(out)@ + enc_hex(n as int, 0) =~= old(out)@);
        }
        return;
    }
    push_hex(out, n / 16, width - 1);
    let d = n % 16;
    out.push(hex_digit_char(d));
    proof {
        assert(out@ =~= old(out)@ + enc_hex(n as int, width as nat));
    }
}

/// Appends the hyphenated form of `u` to `out`.
pub fn push_uid_chars(out: &mut Vec<char>, u: Uid)
    ensures
        final(out)@ == old(out)@ + spec_uid_chars(u.bits),
{
    let mut h: Vec<char> = Vec::new();
    push_hex(&mut h, u.bits, 32);
    proof {
        lemma_enc_hex_len(u.bits as int, 32);
    }
    copy_range(out, &h, 0, 8);
    out.push('-');
    copy_range(out, &h, 8, 12);
    out.push('-');
    copy_range(out, &h, 12, 16);
    out.push('-');
    copy_range(out, &h, 16, 20);
    out.push('-');
    copy_range(out, &h, 20, 32);
    proof {
        assert(out@ =~= old(out)@ + spec_uid_chars(u.bits));
    }
}

fn copy_range(out: &mut Vec<char>, src: &Vec<char>, from: usize, to: usize)
    requires
        from <= to <= old(out)@.len() + src@.len(),
        from <= to <= src@.len(),
    ensures
        final(out)@ == old(out)@ + src@.subrange(from as int, to as int),
{
    let mut i: usize = from;
    while i < to
        invariant
            from <= i <= to <= src@.len(),
            out@ == old(out)@ + src@.subrange(from as int, i as int),
        decreases to - i,
    {
        out.push(src[i]);
        proof {
            assert(src@.subrange(from as int, (i + 1) as int)
                =~= src@.subrange(from as int, i as int).push(src@[i as int]));
        }
        i += 1;
    }
}

/// The hyphenated text form of `u` as a `String`.
pub fn uid_hyphenated(u: Uid) -> (r: String)
    ensures
        r@ == spec_uid_chars(u.bits),
{
    let mut v: Vec<char> = Vec::new();
    push_uid_chars(&mut v, u);
    chars_to_string(&v)
}

} // verus!
