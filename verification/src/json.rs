//! Primitive pieces of the wire grammar: decimal numbers, strings with the
//! standard JSON escapes, and `null`.
//!
//! Each piece has a spec-level renderer, a spec-level parser, an executable
//! twin proved equal to the spec parser, and an inversion lemma: parsing a
//! rendered value, in any surrounding context, yields the value back.

use vstd::prelude::*;

verus! {

pub open spec fn is_digit(c: u8) -> bool {
    48 <= c <= 57
}

/// JSON's insignificant whitespace.
pub open spec fn is_ws(c: u8) -> bool {
    c == 32 || c == 9 || c == 10 || c == 13
}

/// First position at or after `i` holding something other than whitespace.
pub open spec fn skip_ws(s: Seq<u8>, i: int) -> int
    decreases s.len() - i,
{
    if 0 <= i < s.len() && is_ws(s[i]) {
        skip_ws(s, i + 1)
    } else {
        i
    }
}

/// Whitespace skipping never moves backwards nor past the end.
pub proof fn lemma_skip_ws_bounds(s: Seq<u8>, i: int)
    requires
        0 <= i <= s.len(),
    ensures
        i <= skip_ws(s, i) <= s.len(),
    decreases s.len() - i,
{
    if i < s.len() && is_ws(s[i]) {
        lemma_skip_ws_bounds(s, i + 1);
    }
}

/// Executable twin of `skip_ws`.
pub fn scan_ws(s: &Vec<u8>, i: usize) -> (j: usize)
    requires
        i <= s.len(),
    ensures
        j as int == skip_ws(s@, i as int),
        i <= j <= s.len(),
{
    let mut j: usize = i;
    while j < s.len() && (s[j] == 32 || s[j] == 9 || s[j] == 10 || s[j] == 13)
        invariant
            i <= j <= s.len(),
            skip_ws(s@, i as int) == skip_ws(s@, j as int),
        decreases s.len() - j,
    {
        j += 1;
    }
    j
}

/// The decimal digits of `n`, most significant first.
pub open spec fn dec_digits(n: nat) -> Seq<u8>
    decreases n,
{
    if n < 10 {
        seq![(48 + n) as u8]
    } else {
        dec_digits(n / 10) + seq![(48 + n % 10) as u8]
    }
}

/// Value of a digit string, accumulated most significant first.
pub open spec fn dval(s: Seq<u8>) -> int
    decreases s.len(),
{
    if s.len() == 0 {
        0
    } else {
        dval(s.drop_last()) * 10 + (s.last() - 48)
    }
}

pub open spec fn all_digits(s: Seq<u8>) -> bool {
    forall|k: int| 0 <= k < s.len() ==> is_digit(#[trigger] s[k])
}

pub open spec fn p10(k: nat) -> int
    decreases k,
{
    if k == 0 {
        1
    } else {
        10 * p10((k - 1) as nat)
    }
}

pub proof fn lemma_p10_pos(k: nat)
    ensures
        p10(k) >= 1,
    decreases k,
{
    if k > 0 {
        lemma_p10_pos((k - 1) as nat);
    }
}

pub proof fn lemma_dval_nonneg(s: Seq<u8>)
    requires
        all_digits(s),
    ensures
        dval(s) >= 0,
    decreases s.len(),
{
    if s.len() > 0 {
        assert(all_digits(s.drop_last()));
        lemma_dval_nonneg(s.drop_last());
    }
}

/// The digits of `n` are digits, at least one, and evaluate back to `n`.
pub proof fn lemma_dec_digits(n: nat)
    ensures
        dec_digits(n).len() >= 1,
        all_digits(dec_digits(n)),
        dval(dec_digits(n)) == n,
    decreases n,
{
    if n < 10 {
        let d = (48 + n) as u8;
        assert(dec_digits(n) == seq![d]);
        assert(seq![d].drop_last() =~= Seq::<u8>::empty());
        assert(seq![d].last() == d);
        assert(dval(Seq::<u8>::empty()) == 0);
        assert(dval(seq![d]) == dval(seq![d].drop_last()) * 10 + (seq![d].last() - 48));
        assert(dval(dec_digits(n)) == n);
    } else {
        lemma_dec_digits(n / 10);
        let d = (48 + n % 10) as u8;
        assert(dec_digits(n) == dec_digits(n / 10) + seq![d]);
        assert((dec_digits(n / 10) + seq![d]).drop_last() =~= dec_digits(n / 10));
        assert(dval(dec_digits(n)) == dval(dec_digits(n / 10)) * 10 + (d - 48));
        assert(dval(dec_digits(n)) == (n / 10) * 10 + n % 10);
    }
}

/// Front decomposition of a digit string's value.
pub proof fn lemma_dval_front(s: Seq<u8>)
    requires
        s.len() >= 1,
        all_digits(s),
    ensures
        dval(s) == (s[0] - 48) * p10((s.len() - 1) as nat) + dval(s.drop_first()),
    decreases s.len(),
{
    if s.len() == 1 {
        assert(s.drop_last() =~= Seq::<u8>::empty());
        assert(s.drop_first() =~= Seq::<u8>::empty());
        assert(s.last() == s[0]);
        assert(dval(s) == dval(s.drop_last()) * 10 + (s.last() - 48));
        assert(dval(Seq::<u8>::empty()) == 0);
        assert(p10(0) == 1);
        assert(dval(s) == (s[0] - 48));
        assert(dval(s.drop_first()) == 0);
        assert((s[0] - 48) * p10((s.len() - 1) as nat) == (s[0] - 48) * 1) by (nonlinear_arith)
            requires
                p10((s.len() - 1) as nat) == 1,
        ;
    } else {
        let dl = s.drop_last();
        assert(all_digits(dl));
        lemma_dval_front(dl);
        assert(dl.drop_first() =~= s.drop_first().drop_last());
        assert(s.drop_first().last() == s.last());
        let a = (s[0] - 48) as int;
        let k = (s.len() - 2) as nat;
        assert(dval(dl) == a * p10(k) + dval(s.drop_first().drop_last()));
        assert(dval(s) == dval(dl) * 10 + (s.last() - 48));
        assert(dval(s.drop_first()) == dval(s.drop_first().drop_last()) * 10 + (s.last() - 48));
        assert((a * p10(k) + dval(s.drop_first().drop_last())) * 10 == a * (10 * p10(k)) + dval(
            s.drop_first().drop_last(),
        ) * 10) by (nonlinear_arith);
        assert(p10((s.len() - 1) as nat) == 10 * p10(k));
        assert(dval(s) == (a * p10(k) + dval(s.drop_first().drop_last())) * 10 + (s.last() - 48));
        assert(dval(s) == a * (10 * p10(k)) + dval(s.drop_first().drop_last()) * 10 + (s.last()
            - 48));
        assert(a * p10((s.len() - 1) as nat) == a * (10 * p10(k)));
        assert(dval(s) == a * p10((s.len() - 1) as nat) + dval(s.drop_first()));
    }
}

/// Parser for a run of digits, accumulating into `acc`; fails on overflow.
pub open spec fn parse_digits(s: Seq<u8>, i: int, acc: u64) -> Option<(u64, int)>
    decreases s.len() - i,
{
    if 0 <= i < s.len() && is_digit(s[i]) {
        let d = (s[i] - 48) as u64;
        if acc * 10 + d > u64::MAX {
            None
        } else {
            parse_digits(s, i + 1, (acc * 10 + d) as u64)
        }
    } else {
        Some((acc, i))
    }
}

/// A decimal natural number: at least one digit.
pub open spec fn parse_u64(s: Seq<u8>, i: int) -> Option<(u64, int)> {
    if 0 <= i < s.len() && is_digit(s[i]) {
        parse_digits(s, i, 0)
    } else {
        None
    }
}

proof fn lemma_parse_digits_block(s: Seq<u8>, i: int, acc: u64, ds: Seq<u8>)
    requires
        0 <= i,
        i + ds.len() <= s.len(),
        s.subrange(i, i + ds.len()) == ds,
        all_digits(ds),
        i + ds.len() == s.len() || !is_digit(s[i + ds.len()]),
        acc * p10(ds.len() as nat) + dval(ds) <= u64::MAX,
    ensures
        parse_digits(s, i, acc) == Some::<(u64, int)>(
            ((acc * p10(ds.len() as nat) + dval(ds)) as u64, i + ds.len()),
        ),
    decreases ds.len(),
{
    lemma_dval_nonneg(ds);
    if ds.len() == 0 {
        assert(p10(0) == 1);
        assert(parse_digits(s, i, acc) == Some::<(u64, int)>((acc, i)));
    } else {
        assert(s[i] == ds[0]) by {
            assert(s.subrange(i, i + ds.len())[0] == s[i]);
        }
        let d = (ds[0] - 48) as u64;
        let tail = ds.drop_first();
        let k = tail.len() as nat;
        lemma_dval_front(ds);
        assert(all_digits(tail));
        lemma_dval_nonneg(tail);
        lemma_p10_pos(k);
        assert(p10(ds.len() as nat) == 10 * p10(k));
        // acc*10 + d rolled into the remaining digits equals the whole.
        assert((acc * 10 + d) * p10(k) == acc * (10 * p10(k)) + d * p10(k)) by (nonlinear_arith);
        assert(acc * (10 * p10(k)) + d * p10(k) + dval(tail) == acc * p10(ds.len() as nat) + dval(
            ds,
        ));
        // No overflow at this step.
        assert((acc * 10 + d) * p10(k) >= (acc * 10 + d) * 1) by (nonlinear_arith)
            requires
                p10(k) >= 1,
                acc * 10 + d >= 0,
        ;
        assert(acc * 10 + d <= u64::MAX);
        let acc2 = (acc * 10 + d) as u64;
        assert(s.subrange(i + 1, i + 1 + tail.len()) =~= tail) by {
            assert(forall|q: int|
                0 <= q < tail.len() ==> s.subrange(i + 1, i + 1 + tail.len())[q]
                    == #[trigger] tail[q]);
        }
        lemma_parse_digits_block(s, i + 1, acc2, tail);
        assert(parse_digits(s, i, acc) == parse_digits(s, i + 1, acc2));
    }
}

/// Inversion: a rendered number parses back to itself, in any context whose
/// continuation does not begin with a digit.
pub proof fn lemma_parse_dec(pre: Seq<u8>, n: u64, rest: Seq<u8>)
    requires
        rest.len() == 0 || !is_digit(rest[0]),
    ensures
        parse_u64(pre + dec_digits(n as nat) + rest, (pre.len() as int)) == Some::<(u64, int)>(
            (n, (pre.len() as int) + dec_digits(n as nat).len()),
        ),
{
    let ds = dec_digits(n as nat);
    let s = pre + ds + rest;
    lemma_dec_digits(n as nat);
    assert(s.subrange((pre.len() as int), (pre.len() as int) + ds.len()) =~= ds);
    assert(s[(pre.len() as int)] == ds[0]);
    if rest.len() > 0 {
        assert(s[(pre.len() as int) + ds.len()] == rest[0]);
    }
    assert(0 * p10(ds.len() as nat) == 0) by (nonlinear_arith);
    lemma_parse_digits_block(s, (pre.len() as int), 0u64, ds);
}

/// Executable twin of `parse_u64`.
pub fn scan_u64(s: &Vec<u8>, i: usize) -> (r: Option<(u64, usize)>)
    requires
        i <= s.len(),
    ensures
        match r {
            Some((v, j)) => parse_u64(s@, i as int) == Some::<(u64, int)>((v, j as int)) && i < j
                <= s.len(),
            None => parse_u64(s@, i as int) is None,
        },
{
    if !(i < s.len() && 48 <= s[i] && s[i] <= 57) {
        return None;
    }
    let mut acc: u64 = 0;
    let mut j: usize = i;
    while j < s.len() && 48 <= s[j] && s[j] <= 57
        invariant
            i <= j <= s.len(),
            parse_u64(s@, i as int) == parse_digits(s@, j as int, acc),
            i < s@.len() && is_digit(s@[i as int]),
        decreases s.len() - j,
    {
        let d = (s[j] - 48) as u64;
        let t: u128 = acc as u128 * 10 + d as u128;
        if t > u64::MAX as u128 {
            return None;
        }
        acc = t as u64;
        j += 1;
    }
    Some((acc, j))
}

/// Executable digit renderer, appending to `out`.
pub fn push_u64(out: &mut Vec<u8>, n: u64)
    ensures
        final(out)@ == old(out)@ + dec_digits(n as nat),
    decreases n,
{
    if n < 10 {
        out.push((48 + n) as u8);
        assert(out@ =~= old(out)@ + dec_digits(n as nat));
    } else {
        push_u64(out, n / 10);
        out.push((48 + n % 10) as u8);
        assert(out@ =~= old(out)@ + dec_digits(n as nat));
    }
}

/// Rendering for the signed values the broadcast payload carries.
pub open spec fn enc_i32(m: i32) -> Seq<u8> {
    if m < 0 {
        seq![45u8] + dec_digits((-(m as int)) as nat)
    } else {
        dec_digits(m as nat)
    }
}

pub open spec fn parse_i32(s: Seq<u8>, i: int) -> Option<(i32, int)> {
    if 0 <= i < s.len() && s[i] == 45 {
        match parse_u64(s, i + 1) {
            Some((mag, j)) => if mag <= 0x8000_0000u64 {
                Some(((-(mag as int)) as i32, j))
            } else {
                None
            },
            None => None,
        }
    } else {
        match parse_u64(s, i) {
            Some((mag, j)) => if mag <= 0x7fff_ffffu64 {
                Some((mag as i32, j))
            } else {
                None
            },
            None => None,
        }
    }
}

pub proof fn lemma_parse_i32(pre: Seq<u8>, m: i32, rest: Seq<u8>)
    requires
        rest.len() == 0 || !is_digit(rest[0]),
    ensures
        parse_i32(pre + enc_i32(m) + rest, (pre.len() as int)) == Some::<(i32, int)>(
            (m, (pre.len() as int) + enc_i32(m).len()),
        ),
{
    let s = pre + enc_i32(m) + rest;
    if m < 0 {
        let mag = (-(m as int)) as u64;
        assert(s[(pre.len() as int)] == 45);
        assert(pre + enc_i32(m) + rest =~= (pre + seq![45u8]) + dec_digits(mag as nat) + rest);
        lemma_parse_dec(pre + seq![45u8], mag, rest);
        assert(mag <= 0x8000_0000u64);
        assert((-(mag as int)) as i32 == m);
    } else {
        let mag = m as u64;
        lemma_dec_digits(mag as nat);
        assert(s[(pre.len() as int)] == dec_digits(mag as nat)[0]);
        assert(is_digit(dec_digits(mag as nat)[0]));
        assert(s[(pre.len() as int)] != 45);
        lemma_parse_dec(pre, mag, rest);
        assert(mag <= 0x7fff_ffffu64);
    }
}

pub fn scan_i32(s: &Vec<u8>, i: usize) -> (r: Option<(i32, usize)>)
    requires
        i <= s.len(),
    ensures
        match r {
            Some((v, j)) => parse_i32(s@, i as int) == Some::<(i32, int)>((v, j as int)) && i < j
                <= s.len(),
            None => parse_i32(s@, i as int) is None,
        },
{
    if i < s.len() && s[i] == 45 {
        match scan_u64(s, i + 1) {
            Some((mag, j)) => {
                if mag <= 0x8000_0000u64 {
                    Some(((-(mag as i64)) as i32, j))
                } else {
                    None
                }
            },
            None => None,
        }
    } else {
        match scan_u64(s, i) {
            Some((mag, j)) => {
                if mag <= 0x7fff_ffffu64 {
                    Some((mag as i32, j))
                } else {
                    None
                }
            },
            None => None,
        }
    }
}

pub fn push_i32(out: &mut Vec<u8>, m: i32)
    ensures
        final(out)@ == old(out)@ + enc_i32(m),
{
    if m < 0 {
        out.push(45);
        let mag = (-(m as i64)) as u64;
        push_u64(out, mag);
        assert(out@ =~= old(out)@ + enc_i32(m));
    } else {
        push_u64(out, m as u64);
    }
}

// ---------------------------------------------------------------------------
// Strings
// ---------------------------------------------------------------------------

pub open spec fn is_hex_digit(c: u8) -> bool {
    48 <= c <= 57 || 97 <= c <= 102 || 65 <= c <= 70
}

/// Numeric value of a hexadecimal digit.
pub open spec fn hex_val(c: u8) -> u8 {
    if 48 <= c <= 57 {
        (c - 48) as u8
    } else if 97 <= c <= 102 {
        (c - 87) as u8
    } else {
        (c - 55) as u8
    }
}

/// The lowercase hexadecimal digit for a value below 16.
pub open spec fn hex_digit(n: u8) -> u8 {
    if n < 10 {
        (48 + n) as u8
    } else {
        (87 + n) as u8
    }
}

proof fn lemma_hex_digit(n: u8)
    requires
        n < 16,
    ensures
        is_hex_digit(hex_digit(n)),
        hex_val(hex_digit(n)) == n,
{
}

/// The rendering of one byte inside a string: quote and backslash get a
/// backslash prefix, the named control bytes their letter escape, every
/// other control byte a `\u00XX` escape, and the rest stand as they are.
#[verifier::opaque]
pub open spec fn esc_byte(c: u8) -> Seq<u8> {
    if c == 34 {
        seq![92u8, 34u8]
    } else if c == 92 {
        seq![92u8, 92u8]
    } else if c == 8 {
        seq![92u8, 98u8]
    } else if c == 12 {
        seq![92u8, 102u8]
    } else if c == 10 {
        seq![92u8, 110u8]
    } else if c == 13 {
        seq![92u8, 114u8]
    } else if c == 9 {
        seq![92u8, 116u8]
    } else if c < 32 {
        seq![92u8, 117u8, 48u8, 48u8, hex_digit(c / 16), hex_digit(c % 16)]
    } else {
        seq![c]
    }
}

/// Escape a whole byte string.
pub open spec fn esc(s: Seq<u8>) -> Seq<u8>
    decreases s.len(),
{
    if s.len() == 0 {
        Seq::empty()
    } else {
        esc_byte(s[0]) + esc(s.drop_first())
    }
}

/// A rendered JSON string: quoted, escaped content.
pub open spec fn enc_string(s: Seq<u8>) -> Seq<u8> {
    seq![34u8] + esc(s) + seq![34u8]
}

/// Parse string content up to the closing quote, appending to `acc`. The
/// standard escapes are accepted (`\uXXXX` in its byte-valued `\u00XX`
/// form); raw control bytes are rejected, as JSON demands.
pub open spec fn parse_str_content(s: Seq<u8>, i: int, acc: Seq<u8>) -> Option<(Seq<u8>, int)>
    decreases s.len() - i,
{
    if !(0 <= i < s.len()) {
        None
    } else if s[i] == 34 {
        Some((acc, i + 1))
    } else if s[i] == 92 {
        if !(i + 1 < s.len()) {
            None
        } else {
            let e = s[i + 1];
            if e == 34 || e == 92 || e == 47 {
                parse_str_content(s, i + 2, acc.push(e))
            } else if e == 98 {
                parse_str_content(s, i + 2, acc.push(8))
            } else if e == 102 {
                parse_str_content(s, i + 2, acc.push(12))
            } else if e == 110 {
                parse_str_content(s, i + 2, acc.push(10))
            } else if e == 114 {
                parse_str_content(s, i + 2, acc.push(13))
            } else if e == 116 {
                parse_str_content(s, i + 2, acc.push(9))
            } else if e == 117 {
                if i + 5 < s.len() && s[i + 2] == 48 && s[i + 3] == 48 && is_hex_digit(s[i + 4])
                    && is_hex_digit(s[i + 5]) {
                    parse_str_content(
                        s,
                        i + 6,
                        acc.push((hex_val(s[i + 4]) * 16 + hex_val(s[i + 5])) as u8),
                    )
                } else {
                    None
                }
            } else {
                None
            }
        }
    } else if s[i] >= 32 {
        parse_str_content(s, i + 1, acc.push(s[i]))
    } else {
        None
    }
}

pub open spec fn parse_string(s: Seq<u8>, i: int) -> Option<(Seq<u8>, int)> {
    if 0 <= i < s.len() && s[i] == 34 {
        parse_str_content(s, i + 1, Seq::empty())
    } else {
        None
    }
}

proof fn lemma_parse_content_block(s: Seq<u8>, i: int, acc: Seq<u8>, t: Seq<u8>)
    requires
        0 <= i,
        i + esc(t).len() + 1 <= s.len(),
        s.subrange(i, i + esc(t).len()) == esc(t),
        s[i + esc(t).len()] == 34,
    ensures
        parse_str_content(s, i, acc) == Some::<(Seq<u8>, int)>((acc + t, i + esc(t).len() + 1)),
    decreases t.len(),
{
    reveal(esc_byte);
    if t.len() == 0 {
        assert(esc(t).len() == 0);
        assert(s[i] == 34);
        assert(acc + t =~= acc);
    } else {
        let c = t[0];
        let tail = t.drop_first();
        let e = esc_byte(c);
        let w = e.len();
        assert(esc(t) =~= e + esc(tail));
        assert forall|q: int| 0 <= q < w implies s[i + q] == e[q] by {
            assert(s.subrange(i, i + esc(t).len())[q] == s[i + q]);
            assert(esc(t)[q] == e[q]);
        }
        assert forall|q: int|
            0 <= q < esc(tail).len() implies s.subrange(i + w, i + w + esc(tail).len())[q]
            == esc(tail)[q] by {
            assert(s.subrange(i, i + esc(t).len())[w + q] == s[i + w + q]);
            assert(esc(t)[w + q] == esc(tail)[q]);
        }
        assert(s.subrange(i + w, i + w + esc(tail).len()) =~= esc(tail));
        assert(s[i + 0] == e[0]);
        if w >= 2 {
            assert(s[i + 1] == e[1]);
        }
        if w == 6 {
            assert(s[i + 2] == e[2]);
            assert(s[i + 3] == e[3]);
            assert(s[i + 4] == e[4]);
            assert(s[i + 5] == e[5]);
        }
        if c == 34 || c == 92 {
            assert(s[i] == 92 && s[i + 1] == c);
            lemma_parse_content_block(s, i + 2, acc.push(c), tail);
        } else if c == 8 {
            assert(s[i] == 92 && s[i + 1] == 98);
            lemma_parse_content_block(s, i + 2, acc.push(c), tail);
        } else if c == 12 {
            assert(s[i] == 92 && s[i + 1] == 102);
            lemma_parse_content_block(s, i + 2, acc.push(c), tail);
        } else if c == 10 {
            assert(s[i] == 92 && s[i + 1] == 110);
            lemma_parse_content_block(s, i + 2, acc.push(c), tail);
        } else if c == 13 {
            assert(s[i] == 92 && s[i + 1] == 114);
            lemma_parse_content_block(s, i + 2, acc.push(c), tail);
        } else if c == 9 {
            assert(s[i] == 92 && s[i + 1] == 116);
            lemma_parse_content_block(s, i + 2, acc.push(c), tail);
        } else if c < 32 {
            assert(s[i] == 92 && s[i + 1] == 117 && s[i + 2] == 48 && s[i + 3] == 48);
            assert(s[i + 4] == hex_digit(c / 16) && s[i + 5] == hex_digit(c % 16));
            lemma_hex_digit(c / 16);
            lemma_hex_digit(c % 16);
            assert((hex_val(s[i + 4]) * 16 + hex_val(s[i + 5])) as u8 == c);
            lemma_parse_content_block(s, i + 6, acc.push(c), tail);
        } else {
            assert(s[i] == c);
            assert(c != 34 && c != 92 && c >= 32);
            lemma_parse_content_block(s, i + 1, acc.push(c), tail);
        }
        assert(acc.push(c) + tail =~= acc + t);
    }
}

/// Inversion: a rendered string parses back to itself, in any context.
pub proof fn lemma_parse_string(pre: Seq<u8>, t: Seq<u8>, rest: Seq<u8>)
    ensures
        parse_string(pre + enc_string(t) + rest, pre.len() as int) == Some::<(Seq<u8>, int)>(
            (t, pre.len() as int + enc_string(t).len()),
        ),
{
    let s = pre + enc_string(t) + rest;
    assert(s[pre.len() as int] == 34);
    assert forall|q: int|
        0 <= q < esc(t).len() implies s.subrange(
        pre.len() as int + 1,
        pre.len() as int + 1 + esc(t).len(),
    )[q] == esc(t)[q] by {
        assert(enc_string(t)[1 + q] == esc(t)[q]);
        assert(s[pre.len() as int + 1 + q] == enc_string(t)[1 + q]);
    }
    assert(s.subrange(pre.len() as int + 1, pre.len() as int + 1 + esc(t).len()) =~= esc(t));
    assert(s[pre.len() as int + 1 + esc(t).len()] == 34) by {
        assert(enc_string(t)[1int + esc(t).len()] == 34);
    }
    lemma_parse_content_block(s, pre.len() as int + 1, Seq::empty(), t);
    assert(Seq::empty() + t =~= t);
}

/// Executable hexadecimal digit value.
fn hexv(c: u8) -> (r: u8)
    requires
        is_hex_digit(c),
    ensures
        r == hex_val(c),
{
    if 48 <= c && c <= 57 {
        c - 48
    } else if c >= 97 {
        c - 87
    } else {
        c - 55
    }
}

/// Executable twin of `parse_string`.
pub fn scan_string(s: &Vec<u8>, i: usize) -> (r: Option<(Vec<u8>, usize)>)
    requires
        i <= s.len(),
    ensures
        match r {
            Some((t, j)) => parse_string(s@, i as int) == Some::<(Seq<u8>, int)>((t@, j as int))
                && i < j <= s.len(),
            None => parse_string(s@, i as int) is None,
        },
{
    if !(i < s.len() && s[i] == 34) {
        return None;
    }
    let mut out: Vec<u8> = Vec::new();
    let mut j: usize = i + 1;
    loop
        invariant
            i + 1 <= j <= s.len(),
            parse_string(s@, i as int) == parse_str_content(s@, j as int, out@),
        decreases s.len() - j,
    {
        if j >= s.len() {
            return None;
        }
        let c = s[j];
        if c == 34 {
            return Some((out, j + 1));
        } else if c == 92 {
            if !(j + 1 < s.len()) {
                return None;
            }
            let e = s[j + 1];
            if e == 34 || e == 92 || e == 47 {
                out.push(e);
                j += 2;
            } else if e == 98 {
                out.push(8);
                j += 2;
            } else if e == 102 {
                out.push(12);
                j += 2;
            } else if e == 110 {
                out.push(10);
                j += 2;
            } else if e == 114 {
                out.push(13);
                j += 2;
            } else if e == 116 {
                out.push(9);
                j += 2;
            } else if e == 117 {
                if s.len() - j >= 6 && s[j + 2] == 48 && s[j + 3] == 48 && (48 <= s[j + 4] && s[j
                    + 4] <= 57 || 97 <= s[j + 4] && s[j + 4] <= 102 || 65 <= s[j + 4] && s[j + 4]
                    <= 70) && (48 <= s[j + 5] && s[j + 5] <= 57 || 97 <= s[j + 5] && s[j + 5]
                    <= 102 || 65 <= s[j + 5] && s[j + 5] <= 70) {
                    let b = hexv(s[j + 4]) * 16 + hexv(s[j + 5]);
                    out.push(b);
                    j += 6;
                } else {
                    return None;
                }
            } else {
                return None;
            }
        } else if c >= 32 {
            out.push(c);
            j += 1;
        } else {
            return None;
        }
    }
}

/// Executable string renderer, appending to `out`.
pub fn push_string(out: &mut Vec<u8>, t: &Vec<u8>)
    ensures
        final(out)@ == old(out)@ + enc_string(t@),
{
    out.push(34);
    let mut k: usize = 0;
    while k < t.len()
        invariant
            0 <= k <= t.len(),
            out@ == old(out)@ + seq![34u8] + esc(t@.subrange(0, k as int)),
        decreases t.len() - k,
    {
        proof {
            reveal(esc_byte);
        }
        let c = t[k];
        if c == 34 {
            out.push(92);
            out.push(34);
        } else if c == 92 {
            out.push(92);
            out.push(92);
        } else if c == 8 {
            out.push(92);
            out.push(98);
        } else if c == 12 {
            out.push(92);
            out.push(102);
        } else if c == 10 {
            out.push(92);
            out.push(110);
        } else if c == 13 {
            out.push(92);
            out.push(114);
        } else if c == 9 {
            out.push(92);
            out.push(116);
        } else if c < 32 {
            out.push(92);
            out.push(117);
            out.push(48);
            out.push(48);
            let hi = c / 16;
            let lo = c % 16;
            out.push(if hi < 10 { 48 + hi } else { 87 + hi });
            out.push(if lo < 10 { 48 + lo } else { 87 + lo });
        } else {
            out.push(c);
        }
        proof {
            let pfx = t@.subrange(0, k as int);
            let pfx2 = t@.subrange(0, k + 1 as int);
            lemma_esc_snoc(pfx, c);
            assert(pfx.push(c) =~= pfx2);
            assert(out@ =~= old(out)@ + seq![34u8] + esc(pfx2));
        }
        k += 1;
    }
    out.push(34);
    proof {
        assert(t@.subrange(0, t@.len() as int) =~= t@);
        assert(out@ =~= old(out)@ + enc_string(t@));
    }
}

/// Escaping distributes over appending one byte.
proof fn lemma_esc_snoc(s: Seq<u8>, c: u8)
    ensures
        esc(s.push(c)) == esc(s) + esc_byte(c),
    decreases s.len(),
{
    reveal(esc_byte);
    if s.len() == 0 {
        assert(s.push(c)[0] == c);
        assert(s.push(c).drop_first() =~= Seq::<u8>::empty());
        assert(esc(Seq::<u8>::empty()) == Seq::<u8>::empty());
        assert(esc(s.push(c)) == esc_byte(c) + esc(s.push(c).drop_first()));
        assert(esc(s.push(c)) =~= esc(s) + esc_byte(c));
    } else {
        assert(s.push(c)[0] == s[0]);
        assert(s.push(c).drop_first() =~= s.drop_first().push(c));
        lemma_esc_snoc(s.drop_first(), c);
        assert(esc(s.push(c)) == esc_byte(s[0]) + (esc(s.drop_first()) + esc_byte(c)));
        assert(esc_byte(s[0]) + (esc(s.drop_first()) + esc_byte(c)) =~= (esc_byte(s[0]) + esc(
            s.drop_first(),
        )) + esc_byte(c));
    }
}

// ---------------------------------------------------------------------------
// null
// ---------------------------------------------------------------------------

pub open spec fn enc_null() -> Seq<u8> {
    seq![110u8, 117u8, 108u8, 108u8]
}

/// A message-identifier position: a number or `null`.
pub open spec fn enc_opt_id(o: Option<u64>) -> Seq<u8> {
    match o {
        None => enc_null(),
        Some(n) => dec_digits(n as nat),
    }
}

pub open spec fn parse_opt_id(s: Seq<u8>, i: int) -> Option<(Option<u64>, int)> {
    if 0 <= i && i + 4 <= s.len() && s[i] == 110 && s[i + 1] == 117 && s[i + 2] == 108 && s[i + 3]
        == 108 {
        Some((None, i + 4))
    } else {
        match parse_u64(s, i) {
            Some((n, j)) => Some((Some(n), j)),
            None => None,
        }
    }
}

pub proof fn lemma_parse_opt_id(pre: Seq<u8>, o: Option<u64>, rest: Seq<u8>)
    requires
        rest.len() == 0 || !is_digit(rest[0]),
    ensures
        parse_opt_id(pre + enc_opt_id(o) + rest, (pre.len() as int)) == Some::<(Option<u64>, int)>(
            (o, (pre.len() as int) + enc_opt_id(o).len()),
        ),
{
    let s = pre + enc_opt_id(o) + rest;
    match o {
        None => {
            assert(s[(pre.len() as int)] == 110);
            assert(s[(pre.len() as int) + 1] == 117);
            assert(s[(pre.len() as int) + 2] == 108);
            assert(s[(pre.len() as int) + 3] == 108);
        },
        Some(n) => {
            lemma_dec_digits(n as nat);
            assert(s[(pre.len() as int)] == dec_digits(n as nat)[0]);
            assert(is_digit(dec_digits(n as nat)[0]));
            assert(s[(pre.len() as int)] != 110);
            lemma_parse_dec(pre, n, rest);
        },
    }
}

pub fn scan_opt_id(s: &Vec<u8>, i: usize) -> (r: Option<(Option<u64>, usize)>)
    requires
        i <= s.len(),
    ensures
        match r {
            Some((o, j)) => parse_opt_id(s@, i as int) == Some::<(Option<u64>, int)>(
                (o, j as int),
            ) && i < j <= s.len(),
            None => parse_opt_id(s@, i as int) is None,
        },
{
    if s.len() - i >= 4 && s[i] == 110 && s[i + 1] == 117 && s[i + 2] == 108 && s[i + 3] == 108 {
        Some((None, i + 4))
    } else {
        match scan_u64(s, i) {
            Some((n, j)) => Some((Some(n), j)),
            None => None,
        }
    }
}

pub fn push_opt_id(out: &mut Vec<u8>, o: &Option<u64>)
    ensures
        final(out)@ == old(out)@ + enc_opt_id(*o),
{
    match o {
        None => {
            out.push(110);
            out.push(117);
            out.push(108);
            out.push(108);
            assert(out@ =~= old(out)@ + enc_null());
        },
        Some(n) => {
            push_u64(out, *n);
        },
    }
}

} // verus!
