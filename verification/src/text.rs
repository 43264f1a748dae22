//! Verified text utilities: equality, substring search, concatenation,
//! digit parsing and substring replacement over `&str` views.

use vstd::prelude::*;

verus! {

/// `pat` occurs in `h` starting at position `i`.
pub open spec fn match_at(h: Seq<char>, pat: Seq<char>, i: int) -> bool {
    0 <= i && i + pat.len() <= h.len() && h.subrange(i, i + pat.len()) == pat
}

/// `pat` occurs somewhere in `h`.
pub open spec fn contains_seq(h: Seq<char>, pat: Seq<char>) -> bool {
    exists|i: int| match_at(h, pat, i)
}

/// Character-for-character string equality.
pub fn str_eq(a: &str, b: &str) -> (r: bool)
    ensures
        r == (a@ == b@),
{
    let an = a.unicode_len();
    let bn = b.unicode_len();
    if an != bn {
        return false;
    }
    let mut i: usize = 0;
    while i < an
        invariant
            an == a@.len(),
            an == b@.len(),
            i <= an,
            forall|k: int| 0 <= k < i ==> a@[k] == b@[k],
        decreases an - i,
    {
        if a.get_char(i) != b.get_char(i) {
            return false;
        }
        i += 1;
    }
    proof {
        assert(a@ =~= b@);
    }
    true
}

/// Whether `pat` occurs in `h` at position `i`.
pub fn matches_at(h: &str, pat: &str, i: usize) -> (r: bool)
    requires
        i + pat@.len() <= h@.len(),
    ensures
        r == match_at(h@, pat@, i as int),
{
    let hn = h.unicode_len();
    let pn = pat.unicode_len();
    let mut j: usize = 0;
    while j < pn
        invariant
            hn == h@.len(),
            pn == pat@.len(),
            i + pn <= hn,
            j <= pn,
            forall|k: int| 0 <= k < j ==> h@[i + k] == pat@[k],
        decreases pn - j,
    {
        if h.get_char(i + j) != pat.get_char(j) {
            proof {
                assert(h@.subrange(i as int, i + pat@.len())[j as int] != pat@[j as int]);
            }
            return false;
        }
        j += 1;
    }
    proof {
        assert(h@.subrange(i as int, i + pat@.len()) =~= pat@);
    }
    true
}

/// Substring search.
pub fn contains_sub(h: &str, pat: &str) -> (r: bool)
    ensures
        r == contains_seq(h@, pat@),
{
    let hn = h.unicode_len();
    let pn = pat.unicode_len();
    if pn > hn {
        return false;
    }
    if pn == 0 {
        proof {
            assert(h@.subrange(0, 0) =~= pat@);
            assert(match_at(h@, pat@, 0));
        }
        return true;
    }
    let mut i: usize = 0;
    while i <= hn - pn
        invariant
            hn == h@.len(),
            pn == pat@.len(),
            0 < pn <= hn,
            i <= hn - pn + 1,
            forall|k: int| 0 <= k < i ==> !match_at(h@, pat@, k),
        decreases hn - i,
    {
        if matches_at(h, pat, i) {
            return true;
        }
        i += 1;
    }
    false
}

/// Whether `h` begins with `pre`.
pub fn starts_with_text(h: &str, pre: &str) -> (r: bool)
    ensures
        r == (pre@.len() <= h@.len() && h@.subrange(0, pre@.len() as int) == pre@),
{
    let hn = h.unicode_len();
    let pn = pre.unicode_len();
    if pn > hn {
        return false;
    }
    matches_at(h, pre, 0)
}

/// Whether `h` ends with `suf`.
pub fn ends_with_text(h: &str, suf: &str) -> (r: bool)
    ensures
        r == (suf@.len() <= h@.len() && h@.subrange(
            h@.len() - suf@.len(),
            h@.len() as int,
        ) == suf@),
{
    let hn = h.unicode_len();
    let sn = suf.unicode_len();
    if sn > hn {
        return false;
    }
    matches_at(h, suf, hn - sn)
}

/// Concatenation of two strings.
pub fn concat2(a: &str, b: &str) -> (r: String)
    ensures
        r@ == a@ + b@,
{
    let mut s = a.to_owned();
    s.append(b);
    s
}

/// `c` is a decimal digit.
pub open spec fn is_digit(c: char) -> bool {
    '0' <= c && c <= '9'
}

/// Every character of `s` is a decimal digit.
pub open spec fn all_digits(s: Seq<char>) -> bool {
    forall|i: int| 0 <= i < s.len() ==> is_digit(#[trigger] s[i])
}

/// Numeric value of a digit character.
pub open spec fn digit_val(c: char) -> int {
    c as int - '0' as int
}

/// Value of a digit string read as a decimal number.
pub open spec fn digits_value(s: Seq<char>) -> int
    decreases s.len(),
{
    if s.len() == 0 {
        0
    } else {
        digits_value(s.drop_last()) * 10 + digit_val(s.last())
    }
}

proof fn lemma_digits_value_nonneg(s: Seq<char>)
    requires
        all_digits(s),
    ensures
        digits_value(s) >= 0,
    decreases s.len(),
{
    if s.len() > 0 {
        assert(all_digits(s.drop_last()));
        lemma_digits_value_nonneg(s.drop_last());
    }
}

proof fn lemma_digits_value_take_mono(s: Seq<char>, i: int)
    requires
        all_digits(s),
        0 <= i <= s.len(),
    ensures
        digits_value(s.take(i)) <= digits_value(s),
    decreases s.len() - i,
{
    if i < s.len() {
        let t = s.take(i + 1);
        assert(t.drop_last() =~= s.take(i));
        assert(all_digits(s.take(i)));
        lemma_digits_value_nonneg(s.take(i));
        assert(digits_value(s.take(i)) <= digits_value(t));
        lemma_digits_value_take_mono(s, i + 1);
    } else {
        assert(s.take(i) =~= s);
    }
}

/// Parses a non-empty string of decimal digits as a `u64`.
/// Returns `None` on an empty string, a non-digit character, or overflow.
pub fn parse_u64_digits(s: &str) -> (r: Option<u64>)
    ensures
        match r {
            Some(v) => s@.len() > 0 && all_digits(s@) && digits_value(s@) == v as int,
            None => s@.len() == 0 || !all_digits(s@) || digits_value(s@) > u64::MAX,
        },
{
    let n = s.unicode_len();
    if n == 0 {
        return None;
    }
    let mut v: u64 = 0;
    let mut i: usize = 0;
    while i < n
        invariant
            n == s@.len(),
            i <= n,
            all_digits(s@.take(i as int)),
            v as int == digits_value(s@.take(i as int)),
        decreases n - i,
    {
        let c = s.get_char(i);
        if c < '0' || c > '9' {
            return None;
        }
        let d: u64 = (c as u32 - 48) as u64;
        let step = match v.checked_mul(10) {
            Some(m) => m.checked_add(d),
            None => None,
        };
        proof {
            assert(s@.take(i + 1).drop_last() =~= s@.take(i as int));
            assert(s@.take(i + 1).last() == s@[i as int]);
        }
        match step {
            Some(nv) => {
                v = nv;
                i += 1;
            },
            None => {
                proof {
                    assert(all_digits(s@.take(i + 1)));
                    assert(digits_value(s@.take(i + 1)) > u64::MAX);
                    if all_digits(s@) {
                        lemma_digits_value_take_mono(s@, i + 1);
                    }
                }
                return None;
            },
        }
    }
    proof {
        assert(s@.take(n as int) =~= s@);
    }
    Some(v)
}

/// One pass of leftmost, non-overlapping replacement of `pat` by `rep`,
/// scanning left to right. Empty patterns leave the text unchanged.
pub open spec fn replace_all_spec(h: Seq<char>, pat: Seq<char>, rep: Seq<char>) -> Seq<char>
    decreases h.len(),
{
    if pat.len() == 0 || h.len() < pat.len() {
        h
    } else if h.subrange(0, pat.len() as int) == pat {
        rep + replace_all_spec(h.skip(pat.len() as int), pat, rep)
    } else {
        seq![h[0]] + replace_all_spec(h.skip(1), pat, rep)
    }
}

/// Replaces every leftmost, non-overlapping occurrence of `pat` in `h` by `rep`.
pub fn replace_all(h: &str, pat: &str, rep: &str) -> (r: String)
    requires
        pat@.len() > 0,
    ensures
        r@ == replace_all_spec(h@, pat@, rep@),
{
    let hn = h.unicode_len();
    let pn = pat.unicode_len();
    let mut out = String::new();
    let mut pos: usize = 0;
    proof {
        assert(h@.skip(0) =~= h@);
        assert(out@ + replace_all_spec(h@, pat@, rep@) =~= replace_all_spec(h@, pat@, rep@));
    }
    while pos < hn
        invariant
            hn == h@.len(),
            pn == pat@.len(),
            pn > 0,
            pos <= hn,
            replace_all_spec(h@, pat@, rep@) == out@ + replace_all_spec(
                h@.skip(pos as int),
                pat@,
                rep@,
            ),
        decreases hn - pos,
    {
        let rest_matches = if pn <= hn && pos <= hn - pn {
            matches_at(h, pat, pos)
        } else {
            false
        };
        let ghost tail = h@.skip(pos as int);
        if rest_matches {
            proof {
                assert(tail.subrange(0, pn as int) =~= h@.subrange(pos as int, pos + pn));
                assert(tail.skip(pn as int) =~= h@.skip(pos + pn));
                assert(replace_all_spec(tail, pat@, rep@) == rep@ + replace_all_spec(
                    h@.skip(pos + pn),
                    pat@,
                    rep@,
                ));
                assert((out@ + (rep@ + replace_all_spec(h@.skip(pos + pn), pat@, rep@))) =~= (out@
                    + rep@) + replace_all_spec(h@.skip(pos + pn), pat@, rep@));
            }
            out.append(rep);
            pos += pn;
        } else {
            proof {
                if pos + pn <= hn {
                    assert(tail.subrange(0, pn as int) =~= h@.subrange(pos as int, pos + pn));
                    assert(tail.subrange(0, pn as int) != pat@);
                } else {
                    assert(tail.len() < pn);
                }
                assert(tail.skip(1) =~= h@.skip(pos + 1));
                assert(seq![tail[0]] =~= h@.subrange(pos as int, pos + 1));
                assert(replace_all_spec(tail, pat@, rep@) == seq![h@[pos as int]]
                    + replace_all_spec(h@.skip(pos + 1), pat@, rep@));
            }
            let c = h.substring_char(pos, pos + 1);
            proof {
                assert((out@ + (seq![h@[pos as int]] + replace_all_spec(
                    h@.skip(pos + 1),
                    pat@,
                    rep@,
                ))) =~= (out@ + c@) + replace_all_spec(h@.skip(pos + 1), pat@, rep@));
            }
            out.append(c);
            pos += 1;
        }
    }
    proof {
        assert(h@.skip(hn as int) =~= Seq::<char>::empty());
        assert(replace_all_spec(Seq::<char>::empty(), pat@, rep@) =~= Seq::<char>::empty());
        assert(out@ + Seq::<char>::empty() =~= out@);
    }
    out
}

/// Concatenation of three strings.
pub fn concat3(a: &str, b: &str, c: &str) -> (r: String)
    ensures
        r@ == a@ + b@ + c@,
{
    let mut s = a.to_owned();
    s.append(b);
    s.append(c);
    s
}

} // verus!
