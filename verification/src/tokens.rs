//! Comma-separated header-value elements: whether a value carries a given
//! token, as `Connection: keep-alive, Upgrade` carries `upgrade`.

use vstd::prelude::*;
use vstd::string::*;
use crate::text::{lower, lower_char, to_lower_char};

verus! {

/// Blank characters that surround a token without being part of it.
pub open spec fn is_blank(c: char) -> bool {
    c == ' ' || c == '\t'
}

/// `tok` stands at `a..b` of `s` as one whole comma-separated element:
/// `lo..hi` is a maximal comma-free stretch of `s`, blank except for
/// `a..b`, and `a..b` lowercased reads exactly `tok`.
pub open spec fn token_at(s: Seq<char>, tok: Seq<char>, lo: int, a: int, b: int, hi: int) -> bool {
    &&& 0 <= lo <= a <= b <= hi <= s.len()
    &&& (lo == 0 || s[lo - 1] == ',')
    &&& (hi == s.len() || s[hi] == ',')
    &&& (forall|k: int| lo <= k < hi ==> s[k] != ',')
    &&& (forall|k: int| lo <= k < a ==> is_blank(#[trigger] s[k]))
    &&& (forall|k: int| b <= k < hi ==> is_blank(#[trigger] s[k]))
    &&& (a < b ==> !is_blank(s[a]) && !is_blank(s[b - 1]))
    &&& lower(s.subrange(a, b)) == tok
}

/// Whether some comma-separated element of `s`, once trimmed of blanks,
/// lowercases to `tok`.
pub open spec fn has_token(s: Seq<char>, tok: Seq<char>) -> bool {
    exists|lo: int, a: int, b: int, hi: int| token_at(s, tok, lo, a, b, hi)
}

/// Whether `s[a..b]` lowercased reads exactly `tok`.
fn lower_eq_range(s: &str, a: usize, b: usize, tok: &str) -> (r: bool)
    requires
        a <= b <= s@.len(),
    ensures
        r == (lower(s@.subrange(a as int, b as int)) == tok@),
{
    let nt = tok.unicode_len();
    if b - a != nt {
        assert(lower(s@.subrange(a as int, b as int)).len() != tok@.len());
        return false;
    }
    let mut i: usize = 0;
    while i < nt
        invariant
            0 <= i <= nt,
            a <= b <= s@.len(),
            nt == tok@.len(),
            b - a == nt,
            forall|j: int| 0 <= j < i ==> lower_char(s@.subrange(a as int, b as int)[j]) == tok@[j],
        decreases nt - i,
    {
        if to_lower_char(s.get_char(a + i)) != tok.get_char(i) {
            assert(lower(s@.subrange(a as int, b as int))[i as int] != tok@[i as int]);
            return false;
        }
        assert(s@.subrange(a as int, b as int)[i as int] == s@[a + i]);
        i += 1;
    }
    assert(lower(s@.subrange(a as int, b as int)) =~= tok@);
    true
}

/// Scan the comma-separated elements of `s` for `tok`.
///
/// `tok` must be its own lowercase form and hold neither blanks nor
/// commas, as a header token does.
pub fn value_has_token(s: &str, tok: &str) -> (r: bool)
    requires
        tok@.len() > 0,
        forall|k: int| 0 <= k < tok@.len()
            ==> !is_blank(#[trigger] tok@[k]) && tok@[k] != ',' && lower_char(tok@[k]) == tok@[k],
    ensures
        r == has_token(s@, tok@),
{
    let n = s.unicode_len();
    let mut p: usize = 0;
    while p <= n
        invariant
            0 <= p <= n + 1,
            n == s@.len(),
            tok@.len() > 0,
            forall|k: int| 0 <= k < tok@.len()
                ==> !is_blank(#[trigger] tok@[k]) && tok@[k] != ',' && lower_char(tok@[k]) == tok@[k],
            p == 0 || p == n + 1 || s@[p - 1] == ',',
            forall|lo: int, a: int, b: int, hi: int| hi < p ==> !token_at(s@, tok@, lo, a, b, hi),
        decreases n + 1 - p,
    {
        // The current segment runs from p to the next comma or the end.
        let mut e: usize = p;
        while e < n && s.get_char(e) != ','
            invariant
                p <= e <= n,
                n == s@.len(),
                forall|k: int| p <= k < e ==> s@[k] != ',',
            decreases n - e,
        {
            e += 1;
        }
        // Trim blanks from both ends of the segment.
        let mut a: usize = p;
        while a < e && is_blank_char(s.get_char(a))
            invariant
                p <= a <= e <= n,
                n == s@.len(),
                forall|k: int| p <= k < a ==> is_blank(#[trigger] s@[k]),
            decreases e - a,
        {
            a += 1;
        }
        let mut b: usize = e;
        while b > a && is_blank_char(s.get_char(b - 1))
            invariant
                a <= b <= e <= n,
                n == s@.len(),
                forall|k: int| b <= k < e ==> is_blank(#[trigger] s@[k]),
            decreases b,
        {
            b -= 1;
        }
        if lower_eq_range(s, a, b, tok) {
            proof {
                assert(tok@[0] != ' ' && tok@[0] != '\t');
                assert(lower(s@.subrange(a as int, b as int)).len() == tok@.len());
                assert(a < b);
                assert(lower_char(s@[a as int]) == tok@[0]) by {
                    assert(lower(s@.subrange(a as int, b as int))[0] == tok@[0]);
                    assert(s@.subrange(a as int, b as int)[0] == s@[a as int]);
                }
                assert(!is_blank(s@[a as int]));
                assert(lower_char(s@[b - 1]) == tok@[tok@.len() - 1]) by {
                    assert(lower(s@.subrange(a as int, b as int))[b - a - 1] == tok@[b - a - 1]);
                    assert(s@.subrange(a as int, b as int)[b - a - 1] == s@[b - 1]);
                }
                assert(!is_blank(s@[b - 1]));
                assert(token_at(s@, tok@, p as int, a as int, b as int, e as int));
            }
            return true;
        }
        proof {
            if a == b && a < e {
                assert(is_blank(s@[a as int]));
                assert(false);
            }
            lemma_segment_refuted(s@, tok@, p as int, a as int, b as int, e as int);
            assert forall|lo: int, aa: int, bb: int, hi: int| hi < e + 1 implies !token_at(
                s@,
                tok@,
                lo,
                aa,
                bb,
                hi,
            ) by {
                if token_at(s@, tok@, lo, aa, bb, hi) && hi >= p {
                    // The witness segment must be exactly this one: its
                    // left edge abuts the comma before p, its right edge
                    // the comma at e.
                    assert(lo == p) by {
                        if lo < p {
                            assert(s@[p - 1] == ',');
                            assert(lo <= p - 1 < hi);
                        } else if lo > p {
                            assert(s@[lo - 1] == ',');
                            assert(p <= lo - 1 < e);
                        }
                    }
                    assert(hi == e) by {
                        if hi < e {
                            assert(p <= hi < e);
                            assert(s@[hi] != ',');
                            assert(hi < s@.len());
                        }
                    }
                    assert(!token_at(s@, tok@, p as int, aa, bb, e as int));
                }
            }
        }
        if e == n {
            proof {
                assert forall|lo: int, a: int, b: int, hi: int| !token_at(
                    s@,
                    tok@,
                    lo,
                    a,
                    b,
                    hi,
                ) by {
                    if token_at(s@, tok@, lo, a, b, hi) {
                        assert(hi < e + 1);
                    }
                }
            }
            return false;
        }
        p = e + 1;
    }
    proof {
        assert forall|lo: int, a: int, b: int, hi: int| !token_at(s@, tok@, lo, a, b, hi) by {
            if token_at(s@, tok@, lo, a, b, hi) {
                assert(hi < p);
            }
        }
    }
    false
}

/// Whether one character is blank, at run time.
fn is_blank_char(c: char) -> (r: bool)
    ensures
        r == is_blank(c),
{
    c == ' ' || c == '\t'
}

/// Once the one trimmed candidate of the segment `lo..hi` has failed the
/// comparison, no witness of `tok` can stand anywhere in that segment.
proof fn lemma_segment_refuted(s: Seq<char>, tok: Seq<char>, lo: int, a0: int, b0: int, hi: int)
    requires
        0 <= lo <= a0 <= b0 <= hi <= s.len(),
        tok.len() > 0,
        lo == 0 || s[lo - 1] == ',',
        hi == s.len() || s[hi] == ',',
        forall|k: int| lo <= k < hi ==> s[k] != ',',
        forall|k: int| lo <= k < a0 ==> is_blank(#[trigger] s[k]),
        forall|k: int| b0 <= k < hi ==> is_blank(#[trigger] s[k]),
        a0 < b0 ==> !is_blank(s[a0]) && !is_blank(s[b0 - 1]),
        a0 == b0 ==> a0 == hi,
        lower(s.subrange(a0, b0)) != tok,
    ensures
        forall|a: int, b: int| !token_at(s, tok, lo, a, b, hi),
{
    assert forall|a: int, b: int| !token_at(s, tok, lo, a, b, hi) by {
        if token_at(s, tok, lo, a, b, hi) {
            // A nonempty token stands on non-blank endpoints, so the
            // segment cannot be all blank.
            assert(a < b);
            assert(a0 < b0) by {
                if a0 == b0 {
                    assert(is_blank(s[a]));
                }
            }
            // The witness bounds coincide with the trimmed bounds.
            assert(a == a0) by {
                if a < a0 {
                    assert(is_blank(s[a]));
                } else if a > a0 {
                    assert(is_blank(s[a0]));
                }
            }
            assert(b == b0) by {
                if b < b0 {
                    assert(is_blank(s[b0 - 1]));
                } else if b > b0 {
                    assert(is_blank(s[b - 1]));
                }
            }
        }
    }
}

} // verus!
