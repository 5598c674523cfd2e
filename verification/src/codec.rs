//! Shared parsing combinators of the message codec: tokens, keys, and the
//! field values (strings, numbers, identifiers), each with a spec twin and a
//! round-trip lemma over the canonical encodings.

use vstd::prelude::*;
use crate::json::{digit_run_end, digit_val, dval, enc_jstr, enc_u64, enc_uid, hex_val, hval,
    is_digit, is_hex, is_ws, lemma_char_at, lemma_dval_bound, lemma_dval_of_enc,
    lemma_hval_bound, lemma_matches_at_concat, lemma_parse_jstr_of_enc, lemma_parse_u64_of_enc,
    lemma_parse_uid_of_enc, matches_at, parse_jstr, parse_jstr_body, parse_u64, parse_uid, pow10,
    pow16, skip_ws, uid_digits, uid_shape};

verus! {

// ---------------------------------------------------------------------------
// spec combinators
// ---------------------------------------------------------------------------

/// One punctuation token, with leading whitespace skipped.
pub open spec fn tok(s: Seq<char>, i: int, c: char) -> Option<int> {
    let k = skip_ws(s, i);
    if 0 <= k < s.len() && s[k] == c {
        Some(k + 1)
    } else {
        None
    }
}

/// A quoted string value, with leading whitespace skipped.
pub open spec fn p_sval(s: Seq<char>, i: int) -> Option<(Seq<char>, int)> {
    parse_jstr(s, skip_ws(s, i))
}

/// A decimal value, with leading whitespace skipped.
pub open spec fn p_nval(s: Seq<char>, i: int) -> Option<(u64, int)> {
    parse_u64(s, skip_ws(s, i))
}

/// A quoted hyphenated identifier, with leading whitespace skipped.
pub open spec fn p_uidval(s: Seq<char>, i: int) -> Option<(u128, int)> {
    parse_uid(s, skip_ws(s, i))
}

/// An object key: the quoted name followed by a colon.
pub open spec fn p_key(s: Seq<char>, i: int, name: Seq<char>) -> Option<int> {
    match p_sval(s, i) {
        Some((t, j)) => if t == name {
            tok(s, j, ':')
        } else {
            None
        },
        None => None,
    }
}

// ---------------------------------------------------------------------------
// canonical encodings of the shapes above
// ---------------------------------------------------------------------------

/// `{"name":<body>}` — the one-entry object every tagged value uses.
pub open spec fn enc_obj(name: Seq<char>, body: Seq<char>) -> Seq<char> {
    seq!['{'] + enc_jstr(name) + seq![':'] + body + seq!['}']
}

/// `"k":<v>` followed by `,"k2":<v2>` pairs is built by concatenation;
/// `enc_entry` is one pair.
pub open spec fn enc_entry(name: Seq<char>, body: Seq<char>) -> Seq<char> {
    enc_jstr(name) + seq![':'] + body
}

// ---------------------------------------------------------------------------
// round-trip lemmas for the combinators
// ---------------------------------------------------------------------------

/// `skip_ws` does not move when it stands on a non-whitespace character.
pub proof fn lemma_skip_ws_id(s: Seq<char>, i: int)
    requires
        0 <= i < s.len(),
        !is_ws(s[i]),
    ensures
        skip_ws(s, i) == i,
{
}

pub proof fn lemma_tok_of_enc(s: Seq<char>, i: int, c: char)
    requires
        matches_at(s, i, seq![c]),
        !is_ws(c),
    ensures
        tok(s, i, c) == Some(i + 1),
{
    lemma_char_at(s, i, seq![c], 0);
    lemma_skip_ws_id(s, i);
}

pub proof fn lemma_p_sval_of_enc(s: Seq<char>, i: int, content: Seq<char>)
    requires
        matches_at(s, i, enc_jstr(content)),
    ensures
        p_sval(s, i) == Some((content, i + enc_jstr(content).len())),
{
    lemma_char_at(s, i, enc_jstr(content), 0);
    assert(enc_jstr(content)[0] == '"');
    lemma_skip_ws_id(s, i);
    lemma_parse_jstr_of_enc(s, i, content);
}

pub proof fn lemma_p_nval_of_enc(s: Seq<char>, i: int, n: u64)
    requires
        matches_at(s, i, enc_u64(n as int)),
        i + enc_u64(n as int).len() == s.len() || !is_digit(s[i + enc_u64(n as int).len()]),
    ensures
        p_nval(s, i) == Some((n, i + enc_u64(n as int).len())),
{
    lemma_dval_of_enc(n as int);
    lemma_char_at(s, i, enc_u64(n as int), 0);
    assert(is_digit(enc_u64(n as int)[0]));
    lemma_skip_ws_id(s, i);
    lemma_parse_u64_of_enc(s, i, n);
}

pub proof fn lemma_p_uidval_of_enc(s: Seq<char>, i: int, b: u128)
    requires
        matches_at(s, i, enc_uid(b)),
    ensures
        p_uidval(s, i) == Some((b, i + 38)),
{
    lemma_char_at(s, i, enc_uid(b), 0);
    assert(enc_uid(b)[0] == '"');
    lemma_skip_ws_id(s, i);
    lemma_parse_uid_of_enc(s, i, b);
}

pub proof fn lemma_p_key_of_enc(s: Seq<char>, i: int, name: Seq<char>)
    requires
        matches_at(s, i, enc_entry(name, Seq::empty())),
    ensures
        p_key(s, i, name) == Some(i + enc_jstr(name).len() + 1),
{
    assert(enc_entry(name, Seq::empty()) =~= enc_jstr(name) + seq![':']);
    lemma_matches_at_concat(s, i, enc_jstr(name), seq![':']);
    lemma_p_sval_of_enc(s, i, name);
    lemma_tok_of_enc(s, i + enc_jstr(name).len(), ':');
}

/// A helper for splitting `matches_at` over a two-part concatenation.
pub proof fn lemma_split2(s: Seq<char>, i: int, a: Seq<char>, b: Seq<char>)
    requires
        matches_at(s, i, a + b),
    ensures
        matches_at(s, i, a),
        matches_at(s, i + a.len(), b),
{
    lemma_matches_at_concat(s, i, a, b);
}

// ---------------------------------------------------------------------------
// exec twins of the primitives
// ---------------------------------------------------------------------------

fn is_ws_char(c: char) -> (r: bool)
    ensures
        r == is_ws(c),
{
    c == ' ' || c == '\n' || c == '\t' || c == '\r'
}

fn is_digit_char(c: char) -> (r: bool)
    ensures
        r == is_digit(c),
{
    c == '0' || c == '1' || c == '2' || c == '3' || c == '4' || c == '5' || c == '6' || c == '7'
        || c == '8' || c == '9'
}

fn digit_of(c: char) -> (r: u64)
    requires
        is_digit(c),
    ensures
        r as int == digit_val(c),
{
    if c == '0' { 0 } else if c == '1' { 1 } else if c == '2' { 2 } else if c == '3' { 3 }
    else if c == '4' { 4 } else if c == '5' { 5 } else if c == '6' { 6 } else if c == '7' { 7 }
    else if c == '8' { 8 } else { 9 }
}

fn is_hex_char(c: char) -> (r: bool)
    ensures
        r == is_hex(c),
{
    is_digit_char(c) || c == 'a' || c == 'b' || c == 'c' || c == 'd' || c == 'e' || c == 'f'
}

fn hex_of(c: char) -> (r: u64)
    requires
        is_hex(c),
    ensures
        r as int == hex_val(c),
{
    if is_digit_char(c) {
        digit_of(c)
    } else if c == 'a' { 10 } else if c == 'b' { 11 } else if c == 'c' { 12 }
    else if c == 'd' { 13 } else if c == 'e' { 14 } else { 15 }
}

/// The position after the leading whitespace.
pub fn ws_end(v: &Vec<char>, i: usize) -> (r: usize)
    requires
        i <= v@.len(),
    ensures
        r as int == skip_ws(v@, i as int),
        i <= r <= v@.len(),
{
    let mut j = i;
    while j < v.len()
        invariant
            i <= j <= v@.len(),
            skip_ws(v@, i as int) == skip_ws(v@, j as int),
        decreases v@.len() - j,
    {
        if !is_ws_char(v[j]) {
            return j;
        }
        j += 1;
    }
    j
}

/// One punctuation token.
pub fn e_tok(v: &Vec<char>, i: usize, c: char) -> (r: Option<usize>)
    requires
        i <= v@.len(),
    ensures
        match r {
            Some(j) => tok(v@, i as int, c) == Some(j as int) && i < j <= v@.len(),
            None => tok(v@, i as int, c) is None,
        },
{
    let k = ws_end(v, i);
    if k < v.len() && v[k] == c {
        Some(k + 1)
    } else {
        None
    }
}

/// A quoted string value; returns the unescaped content.
pub fn e_sval(v: &Vec<char>, i: usize) -> (r: Option<(Vec<char>, usize)>)
    requires
        i <= v@.len(),
    ensures
        match r {
            Some((t, j)) => p_sval(v@, i as int) == Some((t@, j as int)) && i < j <= v@.len(),
            None => p_sval(v@, i as int) is None,
        },
{
    let k = ws_end(v, i);
    if k >= v.len() || v[k] != '"' {
        return None;
    }
    let mut out: Vec<char> = Vec::new();
    let mut j = k + 1;
    loop
        invariant
            k + 1 <= j <= v@.len(),
            k < v@.len(),
            v@[k as int] == '"',
            skip_ws(v@, i as int) == k as int,
            i <= k,
            match parse_jstr_body(v@, j as int) {
                Some((t2, e)) => parse_jstr_body(v@, k + 1) == Some((out@ + t2, e)),
                None => parse_jstr_body(v@, k + 1) is None,
            },
        decreases v@.len() - j,
    {
        if j >= v.len() {
            return None;
        }
        let c = v[j];
        if c == '"' {
            proof {
                assert(out@ + Seq::<char>::empty() =~= out@);
            }
            return Some((out, j + 1));
        } else if c == '\\' {
            if j + 1 < v.len() && (v[j + 1] == '"' || v[j + 1] == '\\') {
                let ghost pre = out@;
                out.push(v[j + 1]);
                proof {
                    assert forall|t2: Seq<char>| true implies pre + (seq![v@[j + 1]] + t2)
                        =~= out@ + t2 by {}
                }
                j += 2;
            } else {
                return None;
            }
        } else {
            let ghost pre = out@;
            out.push(c);
            proof {
                assert forall|t2: Seq<char>| true implies pre + (seq![v@[j as int]] + t2)
                    =~= out@ + t2 by {}
            }
            j += 1;
        }
    }
}

/// A decimal value.
pub fn e_nval(v: &Vec<char>, i: usize) -> (r: Option<(u64, usize)>)
    requires
        i <= v@.len(),
    ensures
        match r {
            Some((n, j)) => p_nval(v@, i as int) == Some((n, j as int)) && i < j <= v@.len(),
            None => p_nval(v@, i as int) is None,
        },
{
    let k = ws_end(v, i);
    let mut j = k;
    while j < v.len() && is_digit_char(v[j])
        invariant
            k <= j <= v@.len(),
            digit_run_end(v@, k as int) == digit_run_end(v@, j as int),
            forall|t: int| k <= t < j ==> is_digit(#[trigger] v@[t]),
        decreases v@.len() - j,
    {
        j += 1;
    }
    proof {
        assert(digit_run_end(v@, j as int) == j as int);
    }
    if j == k || j - k > 20 {
        return None;
    }
    let ghost ds = v@.subrange(k as int, j as int);
    let mut acc: u128 = 0;
    let mut p = k;
    while p < j
        invariant
            k <= p <= j <= v@.len(),
            j - k <= 20,
            forall|t: int| k <= t < j ==> is_digit(#[trigger] v@[t]),
            ds == v@.subrange(k as int, j as int),
            acc == dval(v@.subrange(k as int, p as int)),
            acc < pow10((p - k) as nat),
        decreases j - p,
    {
        proof {
            lemma_dval_bound(v@.subrange(k as int, p as int));
            assert(pow10((p + 1 - k) as nat) == 10 * pow10((p - k) as nat));
            lemma_pow10_le_20((p + 1 - k) as nat);
        }
        let d = digit_of(v[p]);
        proof {
            assert(v@.subrange(k as int, (p + 1) as int).drop_last() =~= v@.subrange(
                k as int,
                p as int,
            ));
            assert(v@.subrange(k as int, (p + 1) as int).last() == v@[p as int]);
        }
        acc = acc * 10 + (d as u128);
        p += 1;
    }
    proof {
        assert(v@.subrange(k as int, j as int) == ds);
    }
    if acc > 0xffff_ffff_ffff_ffff {
        return None;
    }
    Some((acc as u64, j))
}

/// `pow10` stays within `u128` range for runs of at most 21 digits.
proof fn lemma_pow10_le_20(k: nat)
    requires
        k <= 21,
    ensures
        pow10(k) <= 0x4_0000_0000_0000_0000_0000_0000,
{
    assert(pow10(21) == 1000000000000000000000) by {
        reveal_with_fuel(pow10, 22);
    }
    lemma_pow10_mono(k, 21);
}

proof fn lemma_pow10_mono(a: nat, b: nat)
    requires
        a <= b,
    ensures
        pow10(a) <= pow10(b),
        pow10(a) >= 1,
    decreases b,
{
    if a < b {
        lemma_pow10_mono(a, (b - 1) as nat);
        assert(pow10(b) == 10 * pow10((b - 1) as nat));
        assert(10 * pow10((b - 1) as nat) >= pow10((b - 1) as nat)) by (nonlinear_arith)
            requires pow10((b - 1) as nat) >= 1;
    } else {
        if a == 0 {
        } else {
            lemma_pow10_mono((a - 1) as nat, (a - 1) as nat);
            assert(pow10(a) == 10 * pow10((a - 1) as nat));
        }
    }
}

/// A quoted hyphenated identifier value.
pub fn e_uidval(v: &Vec<char>, i: usize) -> (r: Option<(u128, usize)>)
    requires
        i <= v@.len(),
    ensures
        match r {
            Some((b, j)) => p_uidval(v@, i as int) == Some((b, j as int)) && i < j <= v@.len(),
            None => p_uidval(v@, i as int) is None,
        },
{
    let k = ws_end(v, i);
    let n = v.len();
    if n - k < 38 {
        proof {
            assert(!uid_shape(v@, k as int));
        }
        return None;
    }
    if v[k] != '"' || v[k + 37] != '"' || v[k + 9] != '-' || v[k + 14] != '-' || v[k + 19] != '-'
        || v[k + 24] != '-' {
        proof {
            assert(!uid_shape(v@, k as int));
        }
        return None;
    }
    let ghost digits = uid_digits(v@, k as int);
    let mut acc: u128 = 0;
    let mut t: usize = 0;
    while t < 32
        invariant
            0 <= t <= 32,
            n == v@.len(),
            k + 38 <= n,
            i <= k,
            skip_ws(v@, i as int) == k as int,
            digits == uid_digits(v@, k as int),
            forall|m: int| 0 <= m < t ==> is_hex(#[trigger] digits[m]),
            acc == hval(digits.subrange(0, t as int)),
            acc < pow16(t as nat),
        decreases 32 - t,
    {
        let pos: usize = if t < 8 {
            k + 1 + t
        } else if t < 12 {
            k + 2 + t
        } else if t < 16 {
            k + 3 + t
        } else if t < 20 {
            k + 4 + t
        } else {
            k + 5 + t
        };
        proof {
            lemma_uid_digit_pos(v@, k as int, t as int);
            assert(digits[t as int] == v@[pos as int]);
        }
        let c = v[pos];
        if !is_hex_char(c) {
            proof {
                assert(!is_hex(uid_digits(v@, k as int)[t as int]));
                assert(!uid_shape(v@, k as int));
            }
            return None;
        }
        let d = hex_of(c);
        proof {
            lemma_hval_bound(digits.subrange(0, t as int));
            lemma_pow16_le_32((t + 1) as nat);
            assert(pow16((t + 1) as nat) == 16 * pow16(t as nat));
            assert(digits.subrange(0, (t + 1) as int).drop_last() =~= digits.subrange(
                0,
                t as int,
            ));
            assert(digits.subrange(0, (t + 1) as int).last() == digits[t as int]);
        }
        acc = acc * 16 + (d as u128);
        t += 1;
    }
    proof {
        assert(digits.subrange(0, 32) =~= digits);
        assert(uid_shape(v@, k as int));
    }
    Some((acc, k + 38))
}

/// Where the `t`-th hex digit of a hyphenated identifier at `i` sits.
proof fn lemma_uid_digit_pos(s: Seq<char>, i: int, t: int)
    requires
        0 <= t < 32,
        0 <= i,
        i + 38 <= s.len(),
    ensures
        uid_digits(s, i)[t] == (if t < 8 { s[i + 1 + t] } else if t < 12 { s[i + 2 + t] }
            else if t < 16 { s[i + 3 + t] } else if t < 20 { s[i + 4 + t] } else { s[i + 5 + t] }),
{
    let d = uid_digits(s, i);
    if t < 8 {
        assert(d[t] == s.subrange(i + 1, i + 9)[t]);
    } else if t < 12 {
        assert(d[t] == s.subrange(i + 10, i + 14)[t - 8]);
    } else if t < 16 {
        assert(d[t] == s.subrange(i + 15, i + 19)[t - 12]);
    } else if t < 20 {
        assert(d[t] == s.subrange(i + 20, i + 24)[t - 16]);
    } else {
        assert(d[t] == s.subrange(i + 25, i + 37)[t - 20]);
    }
}

proof fn lemma_pow16_le_32(k: nat)
    requires
        k <= 32,
    ensures
        pow16(k) <= 0x100000000000000000000000000000000,
    decreases k,
{
    lemma_pow16_mono(k, 32);
    assert(pow16(32) == 0x100000000000000000000000000000000) by {
        reveal_with_fuel(pow16, 33);
    }
}

proof fn lemma_pow16_mono(a: nat, b: nat)
    requires
        a <= b,
    ensures
        pow16(a) <= pow16(b),
        pow16(a) >= 1,
    decreases b,
{
    if a < b {
        lemma_pow16_mono(a, (b - 1) as nat);
        assert(pow16(b) == 16 * pow16((b - 1) as nat));
        assert(16 * pow16((b - 1) as nat) >= pow16((b - 1) as nat)) by (nonlinear_arith)
            requires pow16((b - 1) as nat) >= 1;
    } else {
        if a == 0 {
        } else {
            lemma_pow16_mono((a - 1) as nat, (a - 1) as nat);
            assert(pow16(a) == 16 * pow16((a - 1) as nat));
        }
    }
}

/// An object key: the quoted name, then a colon.
pub fn e_key(v: &Vec<char>, i: usize, name: &str) -> (r: Option<usize>)
    requires
        i <= v@.len(),
    ensures
        match r {
            Some(j) => p_key(v@, i as int, name@) == Some(j as int) && i < j <= v@.len(),
            None => p_key(v@, i as int, name@) is None,
        },
{
    match e_sval(v, i) {
        Some((t, j)) => {
            if crate::strutil::chars_eq_str(&t, name) {
                e_tok(v, j, ':')
            } else {
                None
            }
        },
        None => None,
    }
}

} // verus!
