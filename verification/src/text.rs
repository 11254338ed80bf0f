//! Character-level helpers: ASCII lowercasing and prefix tests on strings.

use vstd::prelude::*;
use vstd::string::*;

verus! {

/// ASCII lowercase of a single character; anything outside `'A'..='Z'` is
/// returned unchanged.
pub open spec fn lower_char(c: char) -> char {
    if 65 <= c as u32 && c as u32 <= 90 {
        ((c as u32) + 32) as char
    } else {
        c
    }
}

/// ASCII lowercase of a whole character sequence.
pub open spec fn lower(s: Seq<char>) -> Seq<char> {
    s.map(|_i: int, c: char| lower_char(c))
}

/// Lowercase one character at run time.
pub fn to_lower_char(c: char) -> (r: char)
    ensures
        r == lower_char(c),
{
    let u = c as u32;
    if 65 <= u && u <= 90 {
        ((u + 32) as u8) as char
    } else {
        c
    }
}

/// Whether `p` is a literal prefix of `s`.
pub fn has_prefix(s: &str, p: &str) -> (r: bool)
    ensures
        r == p@.is_prefix_of(s@),
{
    let np = p.unicode_len();
    let ns = s.unicode_len();
    if np > ns {
        return false;
    }
    let mut i: usize = 0;
    while i < np
        invariant
            0 <= i <= np,
            np == p@.len(),
            ns == s@.len(),
            np <= ns,
            forall|j: int| 0 <= j < i ==> p@[j] == s@[j],
        decreases np - i,
    {
        if p.get_char(i) != s.get_char(i) {
            assert(p@[i as int] != s@[i as int]);
            assert(!p@.is_prefix_of(s@));
            return false;
        }
        i += 1;
    }
    assert(p@ =~= s@.subrange(0, np as int));
    true
}

/// Whether `p` is a literal prefix of the ASCII-lowercased form of `s`.
pub fn has_prefix_of_lower(s: &str, p: &str) -> (r: bool)
    ensures
        r == p@.is_prefix_of(lower(s@)),
{
    let np = p.unicode_len();
    let ns = s.unicode_len();
    if np > ns {
        return false;
    }
    let mut i: usize = 0;
    while i < np
        invariant
            0 <= i <= np,
            np == p@.len(),
            ns == s@.len(),
            np <= ns,
            lower(s@).len() == s@.len(),
            forall|j: int| 0 <= j < i ==> p@[j] == lower(s@)[j],
        decreases np - i,
    {
        if p.get_char(i) != to_lower_char(s.get_char(i)) {
            assert(p@[i as int] != lower(s@)[i as int]);
            assert(!p@.is_prefix_of(lower(s@)));
            return false;
        }
        i += 1;
    }
    assert(p@ =~= lower(s@).subrange(0, np as int));
    true
}

pub proof fn lemma_lower_connection()
    ensures
        lower("connection"@) == "connection"@,
{
    reveal_strlit("connection");
    assert(lower("connection"@) =~= "connection"@);
}

pub proof fn lemma_lower_host()
    ensures
        lower("host"@) == "host"@,
{
    reveal_strlit("host");
    assert(lower("host"@) =~= "host"@);
}

pub proof fn lemma_lower_upgrade()
    ensures
        lower("upgrade"@) == "upgrade"@,
{
    reveal_strlit("upgrade");
    assert(lower("upgrade"@) =~= "upgrade"@);
}

pub proof fn lemma_lower_websocket()
    ensures
        lower("websocket"@) == "websocket"@,
{
    reveal_strlit("websocket");
    assert(lower("websocket"@) =~= "websocket"@);
}

/// Whether two strings are equal once both are ASCII-lowercased.
pub fn eq_nocase(a: &str, b: &str) -> (r: bool)
    ensures
        r == (lower(a@) == lower(b@)),
{
    let na = a.unicode_len();
    let nb = b.unicode_len();
    if na != nb {
        assert(lower(a@).len() != lower(b@).len());
        return false;
    }
    let mut i: usize = 0;
    while i < na
        invariant
            0 <= i <= na,
            na == a@.len(),
            nb == b@.len(),
            na == nb,
            forall|j: int| 0 <= j < i ==> lower(a@)[j] == lower(b@)[j],
        decreases na - i,
    {
        if to_lower_char(a.get_char(i)) != to_lower_char(b.get_char(i)) {
            assert(lower(a@)[i as int] != lower(b@)[i as int]);
            return false;
        }
        i += 1;
    }
    assert(lower(a@) =~= lower(b@));
    true
}

} // verus!
