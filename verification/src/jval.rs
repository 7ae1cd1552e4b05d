//! Composite pieces of the wire grammar: arrays of strings, arrays of
//! numbers, the topology object, and a skipper that steps over any value a
//! peer may put in a field this runtime does not know.

use vstd::prelude::*;
use crate::json::{
    enc_string, parse_string, enc_i32, parse_i32, is_digit, is_ws, skip_ws, scan_string, scan_i32,
    scan_ws, push_string, push_i32,
};
use crate::message::{strs_view, topo_view};

verus! {

// ---------------------------------------------------------------------------
// Arrays of strings
// ---------------------------------------------------------------------------

pub open spec fn enc_strs_rest(v: Seq<Seq<u8>>) -> Seq<u8>
    decreases v.len(),
{
    if v.len() == 0 {
        Seq::empty()
    } else {
        seq![44u8] + enc_string(v[0]) + enc_strs_rest(v.drop_first())
    }
}

pub open spec fn enc_strs(v: Seq<Seq<u8>>) -> Seq<u8> {
    if v.len() == 0 {
        seq![91u8, 93u8]
    } else {
        seq![91u8] + enc_string(v[0]) + enc_strs_rest(v.drop_first()) + seq![93u8]
    }
}

pub open spec fn parse_strs_items(s: Seq<u8>, i: int, acc: Seq<Seq<u8>>) -> Option<
    (Seq<Seq<u8>>, int),
>
    decreases s.len() - i,
{
    match parse_string(s, i) {
        None => None,
        Some((t, j)) => {
            let j1 = skip_ws(s, j);
            if !(i < j && j <= j1 && j1 < s.len()) {
                None
            } else if s[j1] == 44 {
                let nx = skip_ws(s, j1 + 1);
                if !(j1 + 1 <= nx && nx <= s.len()) {
                    None
                } else {
                    parse_strs_items(s, nx, acc.push(t))
                }
            } else if s[j1] == 93 {
                Some((acc.push(t), j1 + 1))
            } else {
                None
            }
        },
    }
}

pub open spec fn parse_strs(s: Seq<u8>, i: int) -> Option<(Seq<Seq<u8>>, int)> {
    if 0 <= i < s.len() && s[i] == 91 {
        let j0 = skip_ws(s, i + 1);
        if !(i + 1 <= j0 && j0 < s.len()) {
            None
        } else if s[j0] == 93 {
            Some((Seq::empty(), j0 + 1))
        } else {
            parse_strs_items(s, j0, Seq::empty())
        }
    } else {
        None
    }
}

proof fn lemma_parse_strs_items(pre: Seq<u8>, h: Seq<u8>, vt: Seq<Seq<u8>>, acc: Seq<Seq<u8>>, rest: Seq<u8>)
    ensures
        parse_strs_items(
            pre + enc_string(h) + enc_strs_rest(vt) + seq![93u8] + rest,
            pre.len() as int,
            acc,
        ) == Some::<(Seq<Seq<u8>>, int)>(
            (
                acc.push(h) + vt,
                pre.len() + enc_string(h).len() + enc_strs_rest(vt).len() + 1int,
            ),
        ),
    decreases vt.len(),
{
    let s = pre + enc_string(h) + enc_strs_rest(vt) + seq![93u8] + rest;
    let tail = enc_strs_rest(vt) + seq![93u8] + rest;
    assert(s =~= pre + enc_string(h) + tail);
    crate::json::lemma_parse_string(pre, h, tail);
    let j: int = pre.len() as int + enc_string(h).len() as int;
    assert(parse_string(s, pre.len() as int) == Some::<(Seq<u8>, int)>((h, j)));
    assert(enc_string(h).len() >= 2);
    if vt.len() == 0 {
        assert(enc_strs_rest(vt) == Seq::<u8>::empty());
        assert(s[j] == 93) by {
            assert(tail[0] == 93);
        }
        assert(acc.push(h) + vt =~= acc.push(h));
    } else {
        assert(enc_strs_rest(vt) == seq![44u8] + enc_string(vt[0]) + enc_strs_rest(
            vt.drop_first(),
        ));
        assert(s[j] == 44) by {
            assert(tail[0] == 44);
        }
        let pre2 = pre + enc_string(h) + seq![44u8];
        lemma_parse_strs_items(pre2, vt[0], vt.drop_first(), acc.push(h), rest);
        assert(s =~= pre2 + enc_string(vt[0]) + enc_strs_rest(vt.drop_first()) + seq![93u8]
            + rest);
        assert(acc.push(h).push(vt[0]) + vt.drop_first() =~= acc.push(h) + vt);
        assert(parse_strs_items(s, pre.len() as int, acc) == parse_strs_items(
            s,
            j + 1,
            acc.push(h),
        ));
    }
}

/// Inversion: a rendered string array parses back to itself, in any context.
pub proof fn lemma_parse_strs(pre: Seq<u8>, v: Seq<Seq<u8>>, rest: Seq<u8>)
    ensures
        parse_strs(pre + enc_strs(v) + rest, pre.len() as int) == Some::<(Seq<Seq<u8>>, int)>(
            (v, pre.len() + enc_strs(v).len() as int),
        ),
{
    let s = pre + enc_strs(v) + rest;
    if v.len() == 0 {
        assert(s[pre.len() as int] == 91) by {
            assert(enc_strs(v)[0] == 91);
        }
        assert(s[pre.len() as int + 1] == 93) by {
            assert(enc_strs(v)[1] == 93);
        }
        assert(enc_strs(v).len() == 2);
    } else {
        let pre2 = pre + seq![91u8];
        lemma_parse_strs_items(pre2, v[0], v.drop_first(), Seq::empty(), rest);
        assert(s =~= pre2 + enc_string(v[0]) + enc_strs_rest(v.drop_first()) + seq![93u8] + rest);
        assert(s[pre.len() as int] == 91) by {
            assert(enc_strs(v)[0] == 91);
        }
        assert(s[pre.len() as int + 1] == 34) by {
            assert(enc_string(v[0])[0] == 34);
            assert(enc_strs(v)[1] == enc_string(v[0])[0]);
        }
        assert(Seq::<Seq<u8>>::empty().push(v[0]) + v.drop_first() =~= v);
        assert(enc_strs(v).len() == 1 + enc_string(v[0]).len() + enc_strs_rest(
            v.drop_first(),
        ).len() + 1);
        assert(pre.len() + 1 < s.len());
    }
}

/// Executable twin of `parse_strs`.
pub fn scan_strs(s: &Vec<u8>, i: usize) -> (r: Option<(Vec<Vec<u8>>, usize)>)
    requires
        i <= s.len(),
    ensures
        match r {
            Some((v, j)) => parse_strs(s@, i as int) == Some::<(Seq<Seq<u8>>, int)>(
                (strs_view(v@), j as int),
            ) && i < j <= s.len(),
            None => parse_strs(s@, i as int) is None,
        },
{
    if !(i < s.len() && s[i] == 91) {
        return None;
    }
    let j0 = scan_ws(s, i + 1);
    if j0 >= s.len() {
        return None;
    }
    if s[j0] == 93 {
        let v: Vec<Vec<u8>> = Vec::new();
        assert(strs_view(v@) =~= Seq::<Seq<u8>>::empty());
        return Some((v, j0 + 1));
    }
    let mut acc: Vec<Vec<u8>> = Vec::new();
    let mut j: usize = j0;
    proof {
        assert(strs_view(acc@) =~= Seq::<Seq<u8>>::empty());
    }
    loop
        invariant
            i < j <= s.len(),
            parse_strs(s@, i as int) == parse_strs_items(s@, j as int, strs_view(acc@)),
        decreases s.len() - j,
    {
        match scan_string(s, j) {
            None => {
                return None;
            },
            Some((t, j2)) => {
                let ghost acc0 = strs_view(acc@);
                let j1 = scan_ws(s, j2);
                if j1 < s.len() && s[j1] == 44 {
                    let nx = scan_ws(s, j1 + 1);
                    acc.push(t);
                    proof {
                        assert(strs_view(acc@) =~= acc0.push(t@));
                    }
                    j = nx;
                } else if j1 < s.len() && s[j1] == 93 {
                    acc.push(t);
                    proof {
                        assert(strs_view(acc@) =~= acc0.push(t@));
                    }
                    return Some((acc, j1 + 1));
                } else {
                    return None;
                }
            },
        }
    }
}

/// Executable renderer for the remainder of a string array, from entry `k` on.
fn push_strs_rest(out: &mut Vec<u8>, v: &Vec<Vec<u8>>, k: usize)
    requires
        k <= v.len(),
    ensures
        final(out)@ == old(out)@ + enc_strs_rest(strs_view(v@).subrange(k as int, v@.len() as int)),
    decreases v.len() - k,
{
    if k == v.len() {
        proof {
            assert(strs_view(v@).subrange(k as int, v@.len() as int) =~= Seq::<Seq<u8>>::empty());
        }
    } else {
        out.push(44);
        push_string(out, &v[k]);
        push_strs_rest(out, v, k + 1);
        proof {
            let w = strs_view(v@).subrange(k as int, v@.len() as int);
            assert(w[0] == v@[k as int]@);
            assert(w.drop_first() =~= strs_view(v@).subrange(k + 1, v@.len() as int));
            assert(out@ =~= old(out)@ + enc_strs_rest(w));
        }
    }
}

/// Executable renderer for a string array.
pub fn push_strs(out: &mut Vec<u8>, v: &Vec<Vec<u8>>)
    ensures
        final(out)@ == old(out)@ + enc_strs(strs_view(v@)),
{
    out.push(91);
    if v.len() == 0 {
        out.push(93);
        assert(out@ =~= old(out)@ + enc_strs(strs_view(v@)));
    } else {
        push_string(out, &v[0]);
        push_strs_rest(out, v, 1);
        out.push(93);
        proof {
            let w = strs_view(v@);
            assert(w[0] == v@[0]@);
            assert(w.subrange(1, v@.len() as int) =~= w.drop_first());
            assert(out@ =~= old(out)@ + enc_strs(w));
        }
    }
}

// ---------------------------------------------------------------------------
// Arrays of numbers
// ---------------------------------------------------------------------------

pub open spec fn enc_i32s_rest(v: Seq<i32>) -> Seq<u8>
    decreases v.len(),
{
    if v.len() == 0 {
        Seq::empty()
    } else {
        seq![44u8] + enc_i32(v[0]) + enc_i32s_rest(v.drop_first())
    }
}

pub open spec fn enc_i32s(v: Seq<i32>) -> Seq<u8> {
    if v.len() == 0 {
        seq![91u8, 93u8]
    } else {
        seq![91u8] + enc_i32(v[0]) + enc_i32s_rest(v.drop_first()) + seq![93u8]
    }
}

pub open spec fn parse_i32s_items(s: Seq<u8>, i: int, acc: Seq<i32>) -> Option<(Seq<i32>, int)>
    decreases s.len() - i,
{
    match parse_i32(s, i) {
        None => None,
        Some((t, j)) => {
            let j1 = skip_ws(s, j);
            if !(i < j && j <= j1 && j1 < s.len()) {
                None
            } else if s[j1] == 44 {
                let nx = skip_ws(s, j1 + 1);
                if !(j1 + 1 <= nx && nx <= s.len()) {
                    None
                } else {
                    parse_i32s_items(s, nx, acc.push(t))
                }
            } else if s[j1] == 93 {
                Some((acc.push(t), j1 + 1))
            } else {
                None
            }
        },
    }
}

pub open spec fn parse_i32s(s: Seq<u8>, i: int) -> Option<(Seq<i32>, int)> {
    if 0 <= i < s.len() && s[i] == 91 {
        let j0 = skip_ws(s, i + 1);
        if !(i + 1 <= j0 && j0 < s.len()) {
            None
        } else if s[j0] == 93 {
            Some((Seq::empty(), j0 + 1))
        } else {
            parse_i32s_items(s, j0, Seq::empty())
        }
    } else {
        None
    }
}

proof fn lemma_parse_i32s_items(pre: Seq<u8>, h: i32, vt: Seq<i32>, acc: Seq<i32>, rest: Seq<u8>)
    ensures
        parse_i32s_items(
            pre + enc_i32(h) + enc_i32s_rest(vt) + seq![93u8] + rest,
            pre.len() as int,
            acc,
        ) == Some::<(Seq<i32>, int)>(
            (acc.push(h) + vt, pre.len() + enc_i32(h).len() + enc_i32s_rest(vt).len() + 1int),
        ),
    decreases vt.len(),
{
    let s = pre + enc_i32(h) + enc_i32s_rest(vt) + seq![93u8] + rest;
    let tail = enc_i32s_rest(vt) + seq![93u8] + rest;
    assert(s =~= pre + enc_i32(h) + tail);
    if vt.len() == 0 {
        assert(tail[0] == 93);
    } else {
        assert(enc_i32s_rest(vt) == seq![44u8] + enc_i32(vt[0]) + enc_i32s_rest(vt.drop_first()));
        assert(tail[0] == 44);
    }
    assert(!is_digit(tail[0]));
    crate::json::lemma_parse_i32(pre, h, tail);
    let j: int = pre.len() as int + enc_i32(h).len() as int;
    assert(parse_i32(s, pre.len() as int) == Some::<(i32, int)>((h, j)));
    assert(enc_i32(h).len() >= 1) by {
        if h < 0 {
            crate::json::lemma_dec_digits((-(h as int)) as nat);
        } else {
            crate::json::lemma_dec_digits(h as nat);
        }
    }
    if vt.len() == 0 {
        assert(s[j] == 93) by {
            assert(tail[0] == 93);
        }
        assert(acc.push(h) + vt =~= acc.push(h));
    } else {
        assert(s[j] == 44) by {
            assert(tail[0] == 44);
        }
        let pre2 = pre + enc_i32(h) + seq![44u8];
        lemma_parse_i32s_items(pre2, vt[0], vt.drop_first(), acc.push(h), rest);
        assert(s =~= pre2 + enc_i32(vt[0]) + enc_i32s_rest(vt.drop_first()) + seq![93u8] + rest);
        assert(acc.push(h).push(vt[0]) + vt.drop_first() =~= acc.push(h) + vt);
        assert(parse_i32s_items(s, pre.len() as int, acc) == parse_i32s_items(
            s,
            j + 1,
            acc.push(h),
        ));
    }
}

/// Inversion: a rendered number array parses back to itself, in any context.
pub proof fn lemma_parse_i32s(pre: Seq<u8>, v: Seq<i32>, rest: Seq<u8>)
    ensures
        parse_i32s(pre + enc_i32s(v) + rest, pre.len() as int) == Some::<(Seq<i32>, int)>(
            (v, pre.len() + enc_i32s(v).len() as int),
        ),
{
    let s = pre + enc_i32s(v) + rest;
    if v.len() == 0 {
        assert(s[pre.len() as int] == 91) by {
            assert(enc_i32s(v)[0] == 91);
        }
        assert(s[pre.len() as int + 1] == 93) by {
            assert(enc_i32s(v)[1] == 93);
        }
        assert(enc_i32s(v).len() == 2);
    } else {
        let pre2 = pre + seq![91u8];
        lemma_parse_i32s_items(pre2, v[0], v.drop_first(), Seq::empty(), rest);
        assert(s =~= pre2 + enc_i32(v[0]) + enc_i32s_rest(v.drop_first()) + seq![93u8] + rest);
        assert(s[pre.len() as int] == 91) by {
            assert(enc_i32s(v)[0] == 91);
        }
        assert(enc_i32(v[0])[0] == 45 || is_digit(enc_i32(v[0])[0])) by {
            if v[0] < 0 {
            } else {
                crate::json::lemma_dec_digits(v[0] as nat);
            }
        }
        assert(s[pre.len() as int + 1] == enc_i32(v[0])[0]) by {
            assert(enc_i32s(v)[1] == enc_i32(v[0])[0]);
        }
        assert(s[pre.len() as int + 1] != 93);
        assert(Seq::<i32>::empty().push(v[0]) + v.drop_first() =~= v);
        assert(enc_i32s(v).len() == 1 + enc_i32(v[0]).len() + enc_i32s_rest(v.drop_first()).len()
            + 1);
        assert(pre.len() + 1 < s.len());
    }
}

/// Executable twin of `parse_i32s`.
pub fn scan_i32s(s: &Vec<u8>, i: usize) -> (r: Option<(Vec<i32>, usize)>)
    requires
        i <= s.len(),
    ensures
        match r {
            Some((v, j)) => parse_i32s(s@, i as int) == Some::<(Seq<i32>, int)>((v@, j as int))
                && i < j <= s.len(),
            None => parse_i32s(s@, i as int) is None,
        },
{
    if !(i < s.len() && s[i] == 91) {
        return None;
    }
    let j0 = scan_ws(s, i + 1);
    if j0 >= s.len() {
        return None;
    }
    if s[j0] == 93 {
        let v: Vec<i32> = Vec::new();
        assert(v@ =~= Seq::<i32>::empty());
        return Some((v, j0 + 1));
    }
    let mut acc: Vec<i32> = Vec::new();
    let mut j: usize = j0;
    loop
        invariant
            i < j <= s.len(),
            parse_i32s(s@, i as int) == parse_i32s_items(s@, j as int, acc@),
        decreases s.len() - j,
    {
        match scan_i32(s, j) {
            None => {
                return None;
            },
            Some((t, j2)) => {
                let j1 = scan_ws(s, j2);
                if j1 < s.len() && s[j1] == 44 {
                    let nx = scan_ws(s, j1 + 1);
                    acc.push(t);
                    j = nx;
                } else if j1 < s.len() && s[j1] == 93 {
                    acc.push(t);
                    return Some((acc, j1 + 1));
                } else {
                    return None;
                }
            },
        }
    }
}

fn push_i32s_rest(out: &mut Vec<u8>, v: &Vec<i32>, k: usize)
    requires
        k <= v.len(),
    ensures
        final(out)@ == old(out)@ + enc_i32s_rest(v@.subrange(k as int, v@.len() as int)),
    decreases v.len() - k,
{
    if k == v.len() {
        proof {
            assert(v@.subrange(k as int, v@.len() as int) =~= Seq::<i32>::empty());
        }
    } else {
        out.push(44);
        push_i32(out, v[k]);
        push_i32s_rest(out, v, k + 1);
        proof {
            let w = v@.subrange(k as int, v@.len() as int);
            assert(w[0] == v@[k as int]);
            assert(w.drop_first() =~= v@.subrange(k + 1, v@.len() as int));
            assert(out@ =~= old(out)@ + enc_i32s_rest(w));
        }
    }
}

/// Executable renderer for a number array.
pub fn push_i32s(out: &mut Vec<u8>, v: &Vec<i32>)
    ensures
        final(out)@ == old(out)@ + enc_i32s(v@),
{
    out.push(91);
    if v.len() == 0 {
        out.push(93);
        assert(out@ =~= old(out)@ + enc_i32s(v@));
    } else {
        push_i32(out, v[0]);
        push_i32s_rest(out, v, 1);
        out.push(93);
        proof {
            assert(v@.subrange(1, v@.len() as int) =~= v@.drop_first());
            assert(out@ =~= old(out)@ + enc_i32s(v@));
        }
    }
}

// ---------------------------------------------------------------------------
// The topology object: string keys, string-array values
// ---------------------------------------------------------------------------

pub open spec fn enc_topo_rest(v: Seq<(Seq<u8>, Seq<Seq<u8>>)>) -> Seq<u8>
    decreases v.len(),
{
    if v.len() == 0 {
        Seq::empty()
    } else {
        seq![44u8] + enc_string(v[0].0) + seq![58u8] + enc_strs(v[0].1) + enc_topo_rest(
            v.drop_first(),
        )
    }
}

pub open spec fn enc_topo(v: Seq<(Seq<u8>, Seq<Seq<u8>>)>) -> Seq<u8> {
    if v.len() == 0 {
        seq![123u8, 125u8]
    } else {
        seq![123u8] + enc_string(v[0].0) + seq![58u8] + enc_strs(v[0].1) + enc_topo_rest(
            v.drop_first(),
        ) + seq![125u8]
    }
}

pub open spec fn parse_topo_items(s: Seq<u8>, i: int, acc: Seq<(Seq<u8>, Seq<Seq<u8>>)>) -> Option<
    (Seq<(Seq<u8>, Seq<Seq<u8>>)>, int),
>
    decreases s.len() - i,
{
    match parse_string(s, i) {
        None => None,
        Some((k, j)) => {
            let j1 = skip_ws(s, j);
            if !(i < j && j <= j1 && j1 < s.len() && s[j1] == 58) {
                None
            } else {
                let v = skip_ws(s, j1 + 1);
                if !(j1 + 1 <= v && v <= s.len()) {
                    None
                } else {
                    match parse_strs(s, v) {
                        None => None,
                        Some((val, j2)) => {
                            let j3 = skip_ws(s, j2);
                            if !(v < j2 && j2 <= j3 && j3 < s.len()) {
                                None
                            } else if s[j3] == 44 {
                                let nx = skip_ws(s, j3 + 1);
                                if !(j3 + 1 <= nx && nx <= s.len()) {
                                    None
                                } else {
                                    parse_topo_items(s, nx, acc.push((k, val)))
                                }
                            } else if s[j3] == 125 {
                                Some((acc.push((k, val)), j3 + 1))
                            } else {
                                None
                            }
                        },
                    }
                }
            }
        },
    }
}

pub open spec fn parse_topo(s: Seq<u8>, i: int) -> Option<(Seq<(Seq<u8>, Seq<Seq<u8>>)>, int)> {
    if 0 <= i < s.len() && s[i] == 123 {
        let j0 = skip_ws(s, i + 1);
        if !(i + 1 <= j0 && j0 < s.len()) {
            None
        } else if s[j0] == 125 {
            Some((Seq::empty(), j0 + 1))
        } else {
            parse_topo_items(s, j0, Seq::empty())
        }
    } else {
        None
    }
}

#[verifier::rlimit(100)]
#[verifier::spinoff_prover]
proof fn lemma_parse_topo_items(
    pre: Seq<u8>,
    h: (Seq<u8>, Seq<Seq<u8>>),
    vt: Seq<(Seq<u8>, Seq<Seq<u8>>)>,
    acc: Seq<(Seq<u8>, Seq<Seq<u8>>)>,
    rest: Seq<u8>,
)
    ensures
        parse_topo_items(
            pre + enc_string(h.0) + seq![58u8] + enc_strs(h.1) + enc_topo_rest(vt) + seq![125u8]
                + rest,
            pre.len() as int,
            acc,
        ) == Some::<(Seq<(Seq<u8>, Seq<Seq<u8>>)>, int)>(
            (
                acc.push(h) + vt,
                pre.len() + enc_string(h.0).len() + 1int + enc_strs(h.1).len() + enc_topo_rest(
                    vt,
                ).len() + 1,
            ),
        ),
    decreases vt.len(),
{
    let s = pre + enc_string(h.0) + seq![58u8] + enc_strs(h.1) + enc_topo_rest(vt) + seq![125u8]
        + rest;
    let tail1 = seq![58u8] + enc_strs(h.1) + enc_topo_rest(vt) + seq![125u8] + rest;
    assert(s =~= pre + enc_string(h.0) + tail1);
    crate::json::lemma_parse_string(pre, h.0, tail1);
    let j: int = pre.len() as int + enc_string(h.0).len() as int;
    assert(parse_string(s, pre.len() as int) == Some::<(Seq<u8>, int)>((h.0, j)));
    assert(s[j] == 58) by {
        assert(tail1[0] == 58);
    }
    assert(enc_string(h.0).len() >= 2);
    let pre2 = pre + enc_string(h.0) + seq![58u8];
    let tail2 = enc_topo_rest(vt) + seq![125u8] + rest;
    assert(s =~= pre2 + enc_strs(h.1) + tail2);
    lemma_parse_strs(pre2, h.1, tail2);
    let j2: int = pre2.len() as int + enc_strs(h.1).len() as int;
    assert(parse_strs(s, j + 1) == Some::<(Seq<Seq<u8>>, int)>((h.1, j2)));
    assert(enc_strs(h.1).len() >= 2);
    if vt.len() == 0 {
        assert(s[j2] == 125) by {
            assert(tail2[0] == 125);
        }
        assert(acc.push(h) + vt =~= acc.push(h));
    } else {
        assert(enc_topo_rest(vt) == seq![44u8] + enc_string(vt[0].0) + seq![58u8] + enc_strs(
            vt[0].1,
        ) + enc_topo_rest(vt.drop_first()));
        assert(s[j2] == 44) by {
            assert(tail2[0] == 44);
        }
        let pre3 = pre2 + enc_strs(h.1) + seq![44u8];
        lemma_parse_topo_items(pre3, vt[0], vt.drop_first(), acc.push(h), rest);
        assert(s =~= pre3 + enc_string(vt[0].0) + seq![58u8] + enc_strs(vt[0].1) + enc_topo_rest(
            vt.drop_first(),
        ) + seq![125u8] + rest);
        assert(acc.push(h).push(vt[0]) + vt.drop_first() =~= acc.push(h) + vt);
        assert(parse_topo_items(s, pre.len() as int, acc) == parse_topo_items(
            s,
            j2 + 1,
            acc.push(h),
        ));
    }
}

/// Inversion: a rendered topology object parses back to itself, in any context.
#[verifier::rlimit(100)]
#[verifier::spinoff_prover]
pub proof fn lemma_parse_topo(pre: Seq<u8>, v: Seq<(Seq<u8>, Seq<Seq<u8>>)>, rest: Seq<u8>)
    ensures
        parse_topo(pre + enc_topo(v) + rest, pre.len() as int) == Some::<
            (Seq<(Seq<u8>, Seq<Seq<u8>>)>, int),
        >((v, pre.len() + enc_topo(v).len() as int)),
{
    let s = pre + enc_topo(v) + rest;
    if v.len() == 0 {
        assert(s[pre.len() as int] == 123) by {
            assert(enc_topo(v)[0] == 123);
        }
        assert(s[pre.len() as int + 1] == 125) by {
            assert(enc_topo(v)[1] == 125);
        }
        assert(enc_topo(v).len() == 2);
    } else {
        let pre2 = pre + seq![123u8];
        lemma_parse_topo_items(pre2, v[0], v.drop_first(), Seq::empty(), rest);
        assert(s =~= pre2 + enc_string(v[0].0) + seq![58u8] + enc_strs(v[0].1) + enc_topo_rest(
            v.drop_first(),
        ) + seq![125u8] + rest);
        assert(s[pre.len() as int] == 123) by {
            assert(enc_topo(v)[0] == 123);
        }
        assert(s[pre.len() as int + 1] == 34) by {
            assert(enc_string(v[0].0)[0] == 34);
            assert(enc_topo(v)[1] == enc_string(v[0].0)[0]);
        }
        assert(Seq::<(Seq<u8>, Seq<Seq<u8>>)>::empty().push(v[0]) + v.drop_first() =~= v);
        assert(enc_topo(v).len() == 1 + enc_string(v[0].0).len() + 1 + enc_strs(v[0].1).len()
            + enc_topo_rest(v.drop_first()).len() + 1);
        assert(pre.len() + 1 < s.len());
    }
}

/// Executable twin of `parse_topo`.
pub fn scan_topo(s: &Vec<u8>, i: usize) -> (r: Option<(Vec<(Vec<u8>, Vec<Vec<u8>>)>, usize)>)
    requires
        i <= s.len(),
    ensures
        match r {
            Some((v, j)) => parse_topo(s@, i as int) == Some::<
                (Seq<(Seq<u8>, Seq<Seq<u8>>)>, int),
            >((topo_view(v@), j as int)) && i < j <= s.len(),
            None => parse_topo(s@, i as int) is None,
        },
{
    if !(i < s.len() && s[i] == 123) {
        return None;
    }
    let j0 = scan_ws(s, i + 1);
    if j0 >= s.len() {
        return None;
    }
    if s[j0] == 125 {
        let v: Vec<(Vec<u8>, Vec<Vec<u8>>)> = Vec::new();
        assert(topo_view(v@) =~= Seq::<(Seq<u8>, Seq<Seq<u8>>)>::empty());
        return Some((v, j0 + 1));
    }
    let mut acc: Vec<(Vec<u8>, Vec<Vec<u8>>)> = Vec::new();
    let mut j: usize = j0;
    proof {
        assert(topo_view(acc@) =~= Seq::<(Seq<u8>, Seq<Seq<u8>>)>::empty());
    }
    loop
        invariant
            i < j <= s.len(),
            parse_topo(s@, i as int) == parse_topo_items(s@, j as int, topo_view(acc@)),
        decreases s.len() - j,
    {
        match scan_string(s, j) {
            None => {
                return None;
            },
            Some((k, jk)) => {
                let j1 = scan_ws(s, jk);
                if !(j1 < s.len() && s[j1] == 58) {
                    return None;
                }
                let v0 = scan_ws(s, j1 + 1);
                match scan_strs(s, v0) {
                    None => {
                        return None;
                    },
                    Some((val, j2)) => {
                        let ghost acc0 = topo_view(acc@);
                        let ghost kv = (k@, strs_view(val@));
                        let j3 = scan_ws(s, j2);
                        if j3 < s.len() && s[j3] == 44 {
                            let nx = scan_ws(s, j3 + 1);
                            acc.push((k, val));
                            proof {
                                assert(topo_view(acc@) =~= acc0.push(kv));
                            }
                            j = nx;
                        } else if j3 < s.len() && s[j3] == 125 {
                            acc.push((k, val));
                            proof {
                                assert(topo_view(acc@) =~= acc0.push(kv));
                            }
                            return Some((acc, j3 + 1));
                        } else {
                            return None;
                        }
                    },
                }
            },
        }
    }
}

fn push_topo_rest(out: &mut Vec<u8>, v: &Vec<(Vec<u8>, Vec<Vec<u8>>)>, k: usize)
    requires
        k <= v.len(),
    ensures
        final(out)@ == old(out)@ + enc_topo_rest(topo_view(v@).subrange(k as int, v@.len() as int)),
    decreases v.len() - k,
{
    if k == v.len() {
        proof {
            assert(topo_view(v@).subrange(k as int, v@.len() as int) =~= Seq::<
                (Seq<u8>, Seq<Seq<u8>>),
            >::empty());
        }
    } else {
        out.push(44);
        push_string(out, &v[k].0);
        out.push(58);
        push_strs(out, &v[k].1);
        push_topo_rest(out, v, k + 1);
        proof {
            let w = topo_view(v@).subrange(k as int, v@.len() as int);
            assert(w[0] == topo_view(v@)[k as int]);
            assert(w.drop_first() =~= topo_view(v@).subrange(k + 1, v@.len() as int));
            assert(out@ =~= old(out)@ + enc_topo_rest(w));
        }
    }
}

/// Executable renderer for a topology object.
pub fn push_topo(out: &mut Vec<u8>, v: &Vec<(Vec<u8>, Vec<Vec<u8>>)>)
    ensures
        final(out)@ == old(out)@ + enc_topo(topo_view(v@)),
{
    out.push(123);
    if v.len() == 0 {
        out.push(125);
        assert(out@ =~= old(out)@ + enc_topo(topo_view(v@)));
    } else {
        push_string(out, &v[0].0);
        out.push(58);
        push_strs(out, &v[0].1);
        push_topo_rest(out, v, 1);
        out.push(125);
        proof {
            let w = topo_view(v@);
            assert(w[0] == (v@[0].0@, strs_view(v@[0].1@)));
            assert(w.subrange(1, v@.len() as int) =~= w.drop_first());
            assert(out@ =~= old(out)@ + enc_topo(w));
        }
    }
}

// ---------------------------------------------------------------------------
// Skipping a value in a field this runtime does not know
// ---------------------------------------------------------------------------

pub open spec fn is_numbyte(c: u8) -> bool {
    is_digit(c) || c == 45 || c == 43 || c == 46 || c == 101 || c == 69
}

/// Step over string content from just after the opening quote.
pub open spec fn skip_string(s: Seq<u8>, i: int) -> Option<int>
    decreases s.len() - i,
{
    if !(0 <= i < s.len()) {
        None
    } else if s[i] == 34 {
        Some(i + 1)
    } else if s[i] == 92 {
        if i + 1 < s.len() {
            skip_string(s, i + 2)
        } else {
            None
        }
    } else {
        skip_string(s, i + 1)
    }
}

/// Step over a run of number-shaped bytes.
pub open spec fn skip_number(s: Seq<u8>, i: int) -> int
    decreases s.len() - i,
{
    if 0 <= i < s.len() && is_numbyte(s[i]) {
        skip_number(s, i + 1)
    } else {
        i
    }
}

/// Step over one JSON value of any shape.
pub open spec fn skip_value(s: Seq<u8>, i: int) -> Option<int>
    decreases s.len() - i, 0int,
{
    if !(0 <= i < s.len()) {
        None
    } else if s[i] == 34 {
        skip_string(s, i + 1)
    } else if is_numbyte(s[i]) {
        Some(skip_number(s, i))
    } else if s[i] == 116 {
        if i + 4 <= s.len() && s[i + 1] == 114 && s[i + 2] == 117 && s[i + 3] == 101 {
            Some(i + 4)
        } else {
            None
        }
    } else if s[i] == 102 {
        if i + 5 <= s.len() && s[i + 1] == 97 && s[i + 2] == 108 && s[i + 3] == 115 && s[i + 4]
            == 101 {
            Some(i + 5)
        } else {
            None
        }
    } else if s[i] == 110 {
        if i + 4 <= s.len() && s[i + 1] == 117 && s[i + 2] == 108 && s[i + 3] == 108 {
            Some(i + 4)
        } else {
            None
        }
    } else if s[i] == 91 {
        let j0 = skip_ws(s, i + 1);
        if !(i + 1 <= j0 && j0 < s.len()) {
            None
        } else if s[j0] == 93 {
            Some(j0 + 1)
        } else {
            skip_arr_items(s, j0)
        }
    } else if s[i] == 123 {
        let j0 = skip_ws(s, i + 1);
        if !(i + 1 <= j0 && j0 < s.len()) {
            None
        } else if s[j0] == 125 {
            Some(j0 + 1)
        } else {
            skip_obj_items(s, j0)
        }
    } else {
        None
    }
}

pub open spec fn skip_arr_items(s: Seq<u8>, i: int) -> Option<int>
    decreases s.len() - i, 1int,
{
    if !(0 <= i <= s.len()) {
        None
    } else {
        match skip_value(s, i) {
            None => None,
            Some(j) => {
                let j1 = skip_ws(s, j);
                if !(i < j && j <= j1 && j1 < s.len()) {
                    None
                } else if s[j1] == 44 {
                    let nx = skip_ws(s, j1 + 1);
                    if !(j1 + 1 <= nx && nx <= s.len()) {
                        None
                    } else {
                        skip_arr_items(s, nx)
                    }
                } else if s[j1] == 93 {
                    Some(j1 + 1)
                } else {
                    None
                }
            },
        }
    }
}

pub open spec fn skip_obj_items(s: Seq<u8>, i: int) -> Option<int>
    decreases s.len() - i, 1int,
{
    if !(0 <= i < s.len() && s[i] == 34) {
        None
    } else {
        match skip_string(s, i + 1) {
            None => None,
            Some(j) => {
                let j1 = skip_ws(s, j);
                if !(i < j && j <= j1 && j1 < s.len() && s[j1] == 58) {
                    None
                } else {
                    let v = skip_ws(s, j1 + 1);
                    if !(j1 + 1 <= v && v <= s.len()) {
                        None
                    } else {
                        match skip_value(s, v) {
                            None => None,
                            Some(j2) => {
                                let j3 = skip_ws(s, j2);
                                if !(v <= j2 && j2 <= j3 && j3 < s.len()) {
                                    None
                                } else if s[j3] == 44 {
                                    let nx = skip_ws(s, j3 + 1);
                                    if !(j3 + 1 <= nx && nx <= s.len()) {
                                        None
                                    } else {
                                        skip_obj_items(s, nx)
                                    }
                                } else if s[j3] == 125 {
                                    Some(j3 + 1)
                                } else {
                                    None
                                }
                            },
                        }
                    }
                }
            },
        }
    }
}

/// Executable twin of `skip_string`.
fn scan_skip_string(s: &Vec<u8>, i: usize) -> (r: Option<usize>)
    requires
        i <= s.len(),
    ensures
        match r {
            Some(j) => skip_string(s@, i as int) == Some(j as int) && i < j <= s.len(),
            None => skip_string(s@, i as int) is None,
        },
{
    let mut j: usize = i;
    loop
        invariant
            i <= j <= s.len(),
            skip_string(s@, i as int) == skip_string(s@, j as int),
        decreases s.len() - j,
    {
        if j >= s.len() {
            return None;
        }
        if s[j] == 34 {
            return Some(j + 1);
        } else if s[j] == 92 {
            if j + 1 < s.len() {
                j += 2;
            } else {
                return None;
            }
        } else {
            j += 1;
        }
    }
}

/// Executable twin of `skip_number`.
fn scan_skip_number(s: &Vec<u8>, i: usize) -> (j: usize)
    requires
        i <= s.len(),
    ensures
        skip_number(s@, i as int) == j as int,
        i <= j <= s.len(),
{
    let mut j: usize = i;
    loop
        invariant
            i <= j <= s.len(),
            skip_number(s@, i as int) == skip_number(s@, j as int),
        decreases s.len() - j,
    {
        if j < s.len() && (48 <= s[j] && s[j] <= 57 || s[j] == 45 || s[j] == 43 || s[j] == 46
            || s[j] == 101 || s[j] == 69) {
            j += 1;
        } else {
            return j;
        }
    }
}

/// Executable twin of `skip_value`.
pub fn scan_skip_value(s: &Vec<u8>, i: usize) -> (r: Option<usize>)
    requires
        i <= s.len(),
    ensures
        match r {
            Some(j) => skip_value(s@, i as int) == Some(j as int) && i <= j <= s.len(),
            None => skip_value(s@, i as int) is None,
        },
    decreases s@.len() - i, 0int,
{
    if i >= s.len() {
        return None;
    }
    let c = s[i];
    if c == 34 {
        scan_skip_string(s, i + 1)
    } else if 48 <= c && c <= 57 || c == 45 || c == 43 || c == 46 || c == 101 || c == 69 {
        Some(scan_skip_number(s, i))
    } else if c == 116 {
        if s.len() - i >= 4 && s[i + 1] == 114 && s[i + 2] == 117 && s[i + 3] == 101 {
            Some(i + 4)
        } else {
            None
        }
    } else if c == 102 {
        if s.len() - i >= 5 && s[i + 1] == 97 && s[i + 2] == 108 && s[i + 3] == 115 && s[i + 4]
            == 101 {
            Some(i + 5)
        } else {
            None
        }
    } else if c == 110 {
        if s.len() - i >= 4 && s[i + 1] == 117 && s[i + 2] == 108 && s[i + 3] == 108 {
            Some(i + 4)
        } else {
            None
        }
    } else if c == 91 {
        let j0 = scan_ws(s, i + 1);
        if j0 >= s.len() {
            None
        } else if s[j0] == 93 {
            Some(j0 + 1)
        } else {
            scan_skip_arr(s, j0)
        }
    } else if c == 123 {
        let j0 = scan_ws(s, i + 1);
        if j0 >= s.len() {
            None
        } else if s[j0] == 125 {
            Some(j0 + 1)
        } else {
            scan_skip_obj(s, j0)
        }
    } else {
        None
    }
}

fn scan_skip_arr(s: &Vec<u8>, i: usize) -> (r: Option<usize>)
    requires
        i <= s.len(),
    ensures
        match r {
            Some(j) => skip_arr_items(s@, i as int) == Some(j as int) && i < j <= s.len(),
            None => skip_arr_items(s@, i as int) is None,
        },
    decreases s@.len() - i, 1int,
{
    match scan_skip_value(s, i) {
        None => None,
        Some(j) => {
            if !(i < j) {
                return None;
            }
            let j1 = scan_ws(s, j);
            if !(j1 < s.len()) {
                None
            } else if s[j1] == 44 {
                let nx = scan_ws(s, j1 + 1);
                scan_skip_arr(s, nx)
            } else if s[j1] == 93 {
                Some(j1 + 1)
            } else {
                None
            }
        },
    }
}

fn scan_skip_obj(s: &Vec<u8>, i: usize) -> (r: Option<usize>)
    requires
        i <= s.len(),
    ensures
        match r {
            Some(j) => skip_obj_items(s@, i as int) == Some(j as int) && i < j <= s.len(),
            None => skip_obj_items(s@, i as int) is None,
        },
    decreases s@.len() - i, 1int,
{
    if !(i < s.len() && s[i] == 34) {
        return None;
    }
    match scan_skip_string(s, i + 1) {
        None => None,
        Some(j) => {
            let j1 = scan_ws(s, j);
            if !(j1 < s.len() && s[j1] == 58) {
                None
            } else {
                let v = scan_ws(s, j1 + 1);
                match scan_skip_value(s, v) {
                    None => None,
                    Some(j2) => {
                        let j3 = scan_ws(s, j2);
                        if !(j3 < s.len()) {
                            None
                        } else if s[j3] == 44 {
                            let nx = scan_ws(s, j3 + 1);
                            scan_skip_obj(s, nx)
                        } else if s[j3] == 125 {
                            Some(j3 + 1)
                        } else {
                            None
                        }
                    },
                }
            }
        },
    }
}

} // verus!
