//! The structured-text primitives of the wire format: strings with escapes,
//! decimal numbers, hyphenated identifiers, and whitespace handling.
//!
//! Every encoder has an exact specification; every parser equals its
//! spec-level twin; and for each primitive a round-trip lemma shows that
//! parsing an encoding yields the encoded value back, whatever follows it.

use vstd::prelude::*;
use crate::ids::{enc_hex, lemma_enc_hex_len, spec_hex_digit, spec_uid_chars, Uid};

verus! {

/// Characters the parsers skip between tokens.
pub open spec fn is_ws(c: char) -> bool {
    c == ' ' || c == '\n' || c == '\t' || c == '\r'
}

/// The first position at or after `i` that does not hold whitespace.
pub open spec fn skip_ws(s: Seq<char>, i: int) -> int
    decreases s.len() - i,
{
    if 0 <= i < s.len() && is_ws(s[i]) {
        skip_ws(s, i + 1)
    } else {
        i
    }
}

/// Skipping whitespace is idempotent: the landing position holds none.
pub proof fn lemma_skip_ws_idem(s: Seq<char>, i: int)
    requires
        0 <= i <= s.len(),
    ensures
        skip_ws(s, skip_ws(s, i)) == skip_ws(s, i),
    decreases s.len() - i,
{
    if 0 <= i < s.len() && is_ws(s[i]) {
        lemma_skip_ws_idem(s, i + 1);
    }
}

/// The pattern `pat` occurs in `s` at position `i`.
pub open spec fn matches_at(s: Seq<char>, i: int, pat: Seq<char>) -> bool {
    0 <= i && i + pat.len() <= s.len() && s.subrange(i, i + pat.len()) == pat
}

pub proof fn lemma_matches_at_concat(s: Seq<char>, i: int, a: Seq<char>, b: Seq<char>)
    ensures
        matches_at(s, i, a + b) <==> (matches_at(s, i, a) && matches_at(s, i + a.len(), b)),
{
    if matches_at(s, i, a + b) {
        assert(s.subrange(i, i + a.len()) =~= a) by {
            assert forall|k: int| 0 <= k < a.len()
                implies s.subrange(i, i + a.len())[k] == a[k] by {
                assert(s.subrange(i, i + (a + b).len())[k] == (a + b)[k]);
            }
        }
        assert(s.subrange(i + a.len(), i + a.len() + b.len()) =~= b) by {
            assert forall|k: int| 0 <= k < b.len()
                implies s.subrange(i + a.len(), i + a.len() + b.len())[k] == b[k] by {
                assert(s.subrange(i, i + (a + b).len())[k + a.len()] == (a + b)[k + a.len()]);
            }
        }
    }
    if matches_at(s, i, a) && matches_at(s, i + a.len(), b) {
        assert(s.subrange(i, i + (a + b).len()) =~= a + b) by {
            assert forall|k: int| 0 <= k < (a + b).len()
                implies s.subrange(i, i + (a + b).len())[k] == (a + b)[k] by {
                if k < a.len() {
                    assert(s.subrange(i, i + a.len())[k] == a[k]);
                } else {
                    assert(s.subrange(i + a.len(), i + a.len() + b.len())[k - a.len()]
                        == b[k - a.len()]);
                }
            }
        }
    }
}

/// One character of the pattern can be read off the text directly.
pub proof fn lemma_char_at(s: Seq<char>, i: int, pat: Seq<char>, k: int)
    requires
        matches_at(s, i, pat),
        0 <= k < pat.len(),
    ensures
        s[i + k] == pat[k],
        0 <= i + k < s.len(),
{
    assert(s.subrange(i, i + pat.len())[k] == pat[k]);
}

// ---------------------------------------------------------------------------
// strings
// ---------------------------------------------------------------------------

/// How one character is written inside a quoted string: quotes and
/// backslashes take a leading backslash, everything else stands as itself.
pub open spec fn esc_char(c: char) -> Seq<char> {
    if c == '"' || c == '\\' {
        seq!['\\', c]
    } else {
        seq![c]
    }
}

/// The escaped body of a quoted string.
pub open spec fn esc(s: Seq<char>) -> Seq<char>
    decreases s.len(),
{
    if s.len() == 0 {
        Seq::empty()
    } else {
        esc_char(s[0]) + esc(s.subrange(1, s.len() as int))
    }
}

/// Escaping distributes over appending one character at the back.
pub proof fn lemma_esc_snoc(s: Seq<char>, c: char)
    ensures
        esc(s.push(c)) == esc(s) + esc_char(c),
    decreases s.len(),
{
    if s.len() == 0 {
        assert(s.push(c)[0] == c);
        assert(s.push(c).subrange(1, 1) =~= Seq::<char>::empty());
        assert(esc(s.push(c)) == esc_char(c) + esc(Seq::<char>::empty()));
        assert(esc(s.push(c)) =~= esc_char(c));
        assert(esc(s) + esc_char(c) =~= esc_char(c));
    } else {
        assert(s.push(c)[0] == s[0]);
        assert(s.push(c).subrange(1, s.len() as int + 1) =~= s.subrange(1, s.len() as int).push(
            c,
        ));
        lemma_esc_snoc(s.subrange(1, s.len() as int), c);
        assert(esc(s.push(c)) =~= esc(s) + esc_char(c));
    }
}

/// A quoted, escaped string.
pub open spec fn enc_jstr(s: Seq<char>) -> Seq<char> {
    seq!['"'] + esc(s) + seq!['"']
}

/// Parses the body of a quoted string starting just after the opening
/// quote; yields the unescaped content and the position after the closing
/// quote.
pub open spec fn parse_jstr_body(s: Seq<char>, i: int) -> Option<(Seq<char>, int)>
    decreases s.len() - i,
{
    if i < 0 || i >= s.len() {
        None
    } else if s[i] == '"' {
        Some((Seq::empty(), i + 1))
    } else if s[i] == '\\' {
        if i + 1 < s.len() && (s[i + 1] == '"' || s[i + 1] == '\\') {
            match parse_jstr_body(s, i + 2) {
                Some((t, j)) => Some((seq![s[i + 1]] + t, j)),
                None => None,
            }
        } else {
            None
        }
    } else {
        match parse_jstr_body(s, i + 1) {
            Some((t, j)) => Some((seq![s[i]] + t, j)),
            None => None,
        }
    }
}

/// Parses a quoted string at `i`.
pub open spec fn parse_jstr(s: Seq<char>, i: int) -> Option<(Seq<char>, int)> {
    if 0 <= i < s.len() && s[i] == '"' {
        parse_jstr_body(s, i + 1)
    } else {
        None
    }
}

pub proof fn lemma_parse_jstr_body_of_esc(s: Seq<char>, i: int, content: Seq<char>)
    requires
        matches_at(s, i, esc(content) + seq!['"']),
    ensures
        parse_jstr_body(s, i) == Some((content, i + esc(content).len() + 1)),
    decreases content.len(),
{
    lemma_matches_at_concat(s, i, esc(content), seq!['"']);
    lemma_char_at(s, i + esc(content).len(), seq!['"'], 0);
    assert(s[i + esc(content).len()] == '"');
    if content.len() == 0 {
        assert(s[i] == '"');
    } else {
        let c = content[0];
        let rest = content.subrange(1, content.len() as int);
        assert(esc(content) == esc_char(c) + esc(rest));
        lemma_matches_at_concat(s, i, esc_char(c), esc(rest));
        lemma_char_at(s, i, esc_char(c), 0);
        assert(s[i] == esc_char(c)[0]);
        if esc_char(c).len() == 2 {
            lemma_char_at(s, i, esc_char(c), 1);
            assert(s[i + 1] == esc_char(c)[1]);
        }
        assert(matches_at(s, i + esc_char(c).len(), esc(rest) + seq!['"'])) by {
            lemma_matches_at_concat(s, i + esc_char(c).len(), esc(rest), seq!['"']);
            lemma_matches_at_concat(s, i, esc_char(c), esc(rest) + seq!['"']);
            assert(esc(content) + seq!['"'] =~= esc_char(c) + (esc(rest) + seq!['"']));
        }
        lemma_parse_jstr_body_of_esc(s, i + esc_char(c).len(), rest);
        if c == '"' || c == '\\' {
            assert(s[i] == '\\' && s[i + 1] == c);
            assert(seq![s[i + 1]] + rest =~= content);
        } else {
            assert(s[i] == c);
            assert(s[i] != '"' && s[i] != '\\');
            assert(seq![s[i]] + rest =~= content);
        }
    }
}

/// Round trip for strings: a quoted encoding parses back to its content,
/// whatever follows it.
pub proof fn lemma_parse_jstr_of_enc(s: Seq<char>, i: int, content: Seq<char>)
    requires
        matches_at(s, i, enc_jstr(content)),
    ensures
        parse_jstr(s, i) == Some((content, i + enc_jstr(content).len())),
{
    assert(enc_jstr(content) =~= seq!['"'] + (esc(content) + seq!['"']));
    lemma_matches_at_concat(s, i, seq!['"'], esc(content) + seq!['"']);
    lemma_char_at(s, i, seq!['"'], 0);
    assert(s[i] == '"');
    lemma_parse_jstr_body_of_esc(s, i + 1, content);
}

// ---------------------------------------------------------------------------
// numbers
// ---------------------------------------------------------------------------

pub open spec fn is_digit(c: char) -> bool {
    c == '0' || c == '1' || c == '2' || c == '3' || c == '4' || c == '5' || c == '6' || c == '7'
        || c == '8' || c == '9'
}

pub open spec fn digit_val(c: char) -> int {
    if c == '0' { 0 } else if c == '1' { 1 } else if c == '2' { 2 } else if c == '3' { 3 }
    else if c == '4' { 4 } else if c == '5' { 5 } else if c == '6' { 6 } else if c == '7' { 7 }
    else if c == '8' { 8 } else { 9 }
}

pub open spec fn spec_digit_char(d: int) -> char {
    if d == 0 { '0' } else if d == 1 { '1' } else if d == 2 { '2' } else if d == 3 { '3' }
    else if d == 4 { '4' } else if d == 5 { '5' } else if d == 6 { '6' } else if d == 7 { '7' }
    else if d == 8 { '8' } else { '9' }
}

/// `n` in decimal, most significant digit first, no leading zeros (except
/// for zero itself).
pub open spec fn enc_u64(n: int) -> Seq<char>
    decreases n,
{
    if n < 10 {
        seq![spec_digit_char(n)]
    } else {
        enc_u64(n / 10).push(spec_digit_char(n % 10))
    }
}

pub open spec fn pow10(k: nat) -> int
    decreases k,
{
    if k == 0 {
        1
    } else {
        10 * pow10((k - 1) as nat)
    }
}

/// The value of a digit sequence.
pub open spec fn dval(ds: Seq<char>) -> int
    decreases ds.len(),
{
    if ds.len() == 0 {
        0
    } else {
        dval(ds.drop_last()) * 10 + digit_val(ds.last())
    }
}

pub proof fn lemma_dval_of_enc(n: int)
    requires
        n >= 0,
    ensures
        dval(enc_u64(n)) == n,
        forall|k: int| 0 <= k < enc_u64(n).len() ==> is_digit(#[trigger] enc_u64(n)[k]),
        enc_u64(n).len() >= 1,
    decreases n,
{
    if n < 10 {
        assert(enc_u64(n) == seq![spec_digit_char(n)]);
        assert(enc_u64(n).drop_last() =~= Seq::<char>::empty());
        assert(dval(Seq::<char>::empty()) == 0);
        assert(enc_u64(n).last() == spec_digit_char(n));
        assert(digit_val(spec_digit_char(n)) == n);
        assert(is_digit(enc_u64(n)[0]));
    } else {
        lemma_dval_of_enc(n / 10);
        let pre = enc_u64(n / 10);
        let d = spec_digit_char(n % 10);
        assert(enc_u64(n) == pre.push(d));
        assert(enc_u64(n).drop_last() =~= pre);
        assert(pre.push(d)[pre.len() as int] == d);
        assert(enc_u64(n).last() == d);
        assert(digit_val(d) == n % 10);
        assert((n / 10) * 10 + n % 10 == n) by (nonlinear_arith)
            requires n >= 10;
        assert forall|k: int| 0 <= k < enc_u64(n).len()
            implies is_digit(#[trigger] enc_u64(n)[k]) by {
            if k < pre.len() {
                assert(enc_u64(n)[k] == pre[k]);
            } else {
                assert(enc_u64(n)[k] == d);
            }
        }
    }
}

pub proof fn lemma_enc_u64_len(n: int, k: nat)
    requires
        0 <= n < pow10(k),
        k >= 1,
    ensures
        enc_u64(n).len() <= k,
    decreases k,
{
    if n < 10 {
    } else {
        assert(pow10(0) == 1);
        assert(k >= 2) by {
            if k == 1 {
                assert(pow10(1) == 10 * pow10(0));
            }
        }
        assert(n / 10 < pow10((k - 1) as nat)) by (nonlinear_arith)
            requires n < pow10(k), pow10(k) == 10 * pow10((k - 1) as nat), n >= 10;
        lemma_enc_u64_len(n / 10, (k - 1) as nat);
    }
}

/// A digit sequence of length `k` has value below `pow10(k)`.
pub proof fn lemma_dval_bound(ds: Seq<char>)
    ensures
        0 <= dval(ds) < pow10(ds.len()),
    decreases ds.len(),
{
    if ds.len() == 0 {
    } else {
        lemma_dval_bound(ds.drop_last());
        assert(dval(ds.drop_last()) * 10 + digit_val(ds.last()) < pow10(ds.len()))
            by (nonlinear_arith)
            requires
                0 <= dval(ds.drop_last()) < pow10((ds.len() - 1) as nat),
                0 <= digit_val(ds.last()) <= 9,
                pow10(ds.len()) == 10 * pow10((ds.len() - 1) as nat),
        ;
    }
}

/// The end of the maximal digit run starting at `i`.
pub open spec fn digit_run_end(s: Seq<char>, i: int) -> int
    decreases s.len() - i,
{
    if 0 <= i < s.len() && is_digit(s[i]) {
        digit_run_end(s, i + 1)
    } else {
        i
    }
}

pub proof fn lemma_digit_run_end(s: Seq<char>, i: int, e: int)
    requires
        0 <= i <= e <= s.len(),
        forall|k: int| i <= k < e ==> is_digit(#[trigger] s[k]),
        e == s.len() || !is_digit(s[e]),
    ensures
        digit_run_end(s, i) == e,
    decreases e - i,
{
    if i < e {
        lemma_digit_run_end(s, i + 1, e);
    }
}

/// Parses a decimal number at `i`: the maximal digit run, when it is
/// non-empty, at most 20 digits long, and its value fits in a `u64`.
pub open spec fn parse_u64(s: Seq<char>, i: int) -> Option<(u64, int)> {
    let j = digit_run_end(s, i);
    if i < j && j - i <= 20 && dval(s.subrange(i, j)) <= u64::MAX {
        Some((dval(s.subrange(i, j)) as u64, j))
    } else {
        None
    }
}

/// Round trip for numbers: the encoding of `n`, followed by anything that
/// is not a digit, parses back to `n`.
pub proof fn lemma_parse_u64_of_enc(s: Seq<char>, i: int, n: u64)
    requires
        matches_at(s, i, enc_u64(n as int)),
        i + enc_u64(n as int).len() == s.len()
            || !is_digit(s[i + enc_u64(n as int).len()]),
    ensures
        parse_u64(s, i) == Some((n, i + enc_u64(n as int).len())),
{
    let e = enc_u64(n as int);
    lemma_dval_of_enc(n as int);
    assert forall|k: int| i <= k < i + e.len() implies is_digit(#[trigger] s[k]) by {
        lemma_char_at(s, i, e, k - i);
        assert(s[k] == e[k - i]);
    }
    lemma_digit_run_end(s, i, i + e.len());
    assert(s.subrange(i, i + e.len()) == e);
    assert(pow10(20) == 100000000000000000000) by {
        reveal_with_fuel(pow10, 21);
    }
    lemma_enc_u64_len(n as int, 20);
}

// ---------------------------------------------------------------------------
// identifiers
// ---------------------------------------------------------------------------

pub open spec fn is_hex(c: char) -> bool {
    is_digit(c) || c == 'a' || c == 'b' || c == 'c' || c == 'd' || c == 'e' || c == 'f'
}

pub open spec fn hex_val(c: char) -> int {
    if is_digit(c) {
        digit_val(c)
    } else if c == 'a' { 10 } else if c == 'b' { 11 } else if c == 'c' { 12 }
    else if c == 'd' { 13 } else if c == 'e' { 14 } else { 15 }
}

pub open spec fn pow16(k: nat) -> int
    decreases k,
{
    if k == 0 {
        1
    } else {
        16 * pow16((k - 1) as nat)
    }
}

/// The value of a hex digit sequence.
pub open spec fn hval(ds: Seq<char>) -> int
    decreases ds.len(),
{
    if ds.len() == 0 {
        0
    } else {
        hval(ds.drop_last()) * 16 + hex_val(ds.last())
    }
}

pub proof fn lemma_hval_of_enc_hex(n: int, w: nat)
    requires
        0 <= n < pow16(w),
    ensures
        hval(enc_hex(n, w)) == n,
        forall|k: int| 0 <= k < enc_hex(n, w).len() ==> is_hex(#[trigger] enc_hex(n, w)[k]),
    decreases w,
{
    lemma_enc_hex_len(n, w);
    if w == 0 {
    } else {
        assert(0 <= n / 16 < pow16((w - 1) as nat)) by (nonlinear_arith)
            requires 0 <= n < pow16(w), pow16(w) == 16 * pow16((w - 1) as nat);
        lemma_hval_of_enc_hex(n / 16, (w - 1) as nat);
        lemma_enc_hex_len(n / 16, (w - 1) as nat);
        assert(enc_hex(n, w).drop_last() =~= enc_hex(n / 16, (w - 1) as nat));
        assert(hex_val(spec_hex_digit(n % 16)) == n % 16);
        assert(is_hex(spec_hex_digit(n % 16)));
        assert((n / 16) * 16 + n % 16 == n) by (nonlinear_arith);
    }
}

pub proof fn lemma_hval_bound(ds: Seq<char>)
    ensures
        0 <= hval(ds) < pow16(ds.len()),
    decreases ds.len(),
{
    if ds.len() == 0 {
    } else {
        lemma_hval_bound(ds.drop_last());
        assert(hval(ds.drop_last()) * 16 + hex_val(ds.last()) < pow16(ds.len()))
            by (nonlinear_arith)
            requires
                0 <= hval(ds.drop_last()) < pow16((ds.len() - 1) as nat),
                0 <= hex_val(ds.last()) <= 15,
                pow16(ds.len()) == 16 * pow16((ds.len() - 1) as nat),
        ;
    }
}

/// A quoted hyphenated identifier.
pub open spec fn enc_uid(b: u128) -> Seq<char> {
    seq!['"'] + spec_uid_chars(b) + seq!['"']
}

/// The 32 hex digits of a hyphenated identifier at `i` (the quote included),
/// in order.
pub open spec fn uid_digits(s: Seq<char>, i: int) -> Seq<char> {
    s.subrange(i + 1, i + 9) + s.subrange(i + 10, i + 14) + s.subrange(i + 15, i + 19)
        + s.subrange(i + 20, i + 24) + s.subrange(i + 25, i + 37)
}

/// Whether a quoted hyphenated identifier sits at `i`.
pub open spec fn uid_shape(s: Seq<char>, i: int) -> bool {
    &&& 0 <= i
    &&& i + 38 <= s.len()
    &&& s[i] == '"'
    &&& s[i + 37] == '"'
    &&& s[i + 9] == '-'
    &&& s[i + 14] == '-'
    &&& s[i + 19] == '-'
    &&& s[i + 24] == '-'
    &&& forall|k: int| 0 <= k < 32 ==> is_hex(#[trigger] uid_digits(s, i)[k])
}

/// Parses a quoted hyphenated identifier at `i`.
pub open spec fn parse_uid(s: Seq<char>, i: int) -> Option<(u128, int)> {
    if uid_shape(s, i) {
        Some((hval(uid_digits(s, i)) as u128, i + 38))
    } else {
        None
    }
}

/// Round trip for identifiers: the quoted hyphenated form of `b` parses
/// back to `b`, whatever follows it.
pub proof fn lemma_parse_uid_of_enc(s: Seq<char>, i: int, b: u128)
    requires
        matches_at(s, i, enc_uid(b)),
    ensures
        parse_uid(s, i) == Some((b, i + 38)),
{
    let h = enc_hex(b as int, 32);
    lemma_enc_hex_len(b as int, 32);
    assert(pow16(32) == 0x100000000000000000000000000000000) by {
        reveal_with_fuel(pow16, 33);
    }
    lemma_hval_of_enc_hex(b as int, 32);
    let u = spec_uid_chars(b);
    assert(u.len() == 36);
    assert(enc_uid(b).len() == 38);
    assert forall|k: int| 0 <= k < 36 implies enc_uid(b)[1 + k] == u[k] by {
        assert(enc_uid(b) == seq!['"'] + u + seq!['"']);
        assert((seq!['"'] + u + seq!['"'])[1 + k] == u[k]);
    }
    assert forall|k: int| 0 <= k < 36 implies s[i + 1 + k] == #[trigger] u[k] by {
        lemma_char_at(s, i, enc_uid(b), 1 + k);
        assert(s[i + 1 + k] == enc_uid(b)[1 + k]);
    }
    // the layout of the hyphenated form, position by position
    assert forall|k: int| 0 <= k < 36 implies #[trigger] u[k] == (if k < 8 { h[k] } else if k == 8 { '-' }
        else if k < 13 { h[k - 1] } else if k == 13 { '-' } else if k < 18 { h[k - 2] }
        else if k == 18 { '-' } else if k < 23 { h[k - 3] } else if k == 23 { '-' }
        else { h[k - 4] }) by {
        assert(u == h.subrange(0, 8) + seq!['-'] + h.subrange(8, 12) + seq!['-'] + h.subrange(
            12,
            16,
        ) + seq!['-'] + h.subrange(16, 20) + seq!['-'] + h.subrange(20, 32));
    }
    lemma_char_at(s, i, enc_uid(b), 0);
    lemma_char_at(s, i, enc_uid(b), 37);
    assert(s[i] == '"');
    assert(s[i + 37] == '"');
    assert(u[8] == '-' && u[13] == '-' && u[18] == '-' && u[23] == '-');
    assert(s[i + 1 + 8] == u[8]);
    assert(s[i + 9] == '-');
    assert(s[i + 1 + 13] == u[13]);
    assert(s[i + 14] == '-');
    assert(s[i + 1 + 18] == u[18]);
    assert(s[i + 19] == '-');
    assert(s[i + 1 + 23] == u[23]);
    assert(s[i + 24] == '-');
    assert(uid_digits(s, i) =~= h) by {
        assert forall|k: int| 0 <= k < 32 implies uid_digits(s, i)[k] == h[k] by {
            if k < 8 {
                assert(uid_digits(s, i)[k] == s.subrange(i + 1, i + 9)[k]);
                assert(s[i + 1 + k] == u[k]);
            } else if k < 12 {
                assert(uid_digits(s, i)[k] == s.subrange(i + 10, i + 14)[k - 8]);
                assert(s[i + 1 + (k + 1)] == u[k + 1]);
            } else if k < 16 {
                assert(uid_digits(s, i)[k] == s.subrange(i + 15, i + 19)[k - 12]);
                assert(s[i + 1 + (k + 2)] == u[k + 2]);
            } else if k < 20 {
                assert(uid_digits(s, i)[k] == s.subrange(i + 20, i + 24)[k - 16]);
                assert(s[i + 1 + (k + 3)] == u[k + 3]);
            } else {
                assert(uid_digits(s, i)[k] == s.subrange(i + 25, i + 37)[k - 20]);
                assert(s[i + 1 + (k + 4)] == u[k + 4]);
            }
        }
    }
    assert(uid_shape(s, i));
}

} // verus!
