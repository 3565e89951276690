//! Character classification, trimming and prefix tests.
//!
//! The discovery pipeline needs exactly the line handling that the
//! configuration files use: Unicode whitespace trimming and prefix tests
//! over character sequences.

use vstd::prelude::*;
use vstd::string::*;

verus! {

/// The Unicode `White_Space` characters, the set that `str::trim` removes.
pub open spec fn is_ws(c: char) -> bool {
    c == ' ' || c == '\t' || c == '\n' || c == '\r' || c == '\u{0b}' || c == '\u{0c}'
        || c == '\u{85}' || c == '\u{a0}' || c == '\u{1680}' || c == '\u{2000}' || c == '\u{2001}'
        || c == '\u{2002}' || c == '\u{2003}' || c == '\u{2004}' || c == '\u{2005}'
        || c == '\u{2006}' || c == '\u{2007}' || c == '\u{2008}' || c == '\u{2009}'
        || c == '\u{200a}' || c == '\u{2028}' || c == '\u{2029}' || c == '\u{202f}'
        || c == '\u{205f}' || c == '\u{3000}'
}

/// Whether `c` carries the Unicode `White_Space` property.
pub fn is_whitespace_char(c: char) -> (r: bool)
    ensures
        r == is_ws(c),
{
    c == ' ' || c == '\t' || c == '\n' || c == '\r' || c == '\u{0b}' || c == '\u{0c}'
        || c == '\u{85}' || c == '\u{a0}' || c == '\u{1680}' || c == '\u{2000}' || c == '\u{2001}'
        || c == '\u{2002}' || c == '\u{2003}' || c == '\u{2004}' || c == '\u{2005}'
        || c == '\u{2006}' || c == '\u{2007}' || c == '\u{2008}' || c == '\u{2009}'
        || c == '\u{200a}' || c == '\u{2028}' || c == '\u{2029}' || c == '\u{202f}'
        || c == '\u{205f}' || c == '\u{3000}'
}

/// `s` without its leading whitespace.
pub open spec fn trim_start(s: Seq<char>) -> Seq<char>
    decreases s.len(),
{
    if s.len() > 0 && is_ws(s[0]) {
        trim_start(s.drop_first())
    } else {
        s
    }
}

/// `s` without its trailing whitespace.
pub open spec fn trim_end(s: Seq<char>) -> Seq<char>
    decreases s.len(),
{
    if s.len() > 0 && is_ws(s.last()) {
        trim_end(s.drop_last())
    } else {
        s
    }
}

/// `s` without leading and trailing whitespace, as `str::trim` leaves it.
pub open spec fn trim(s: Seq<char>) -> Seq<char> {
    trim_end(trim_start(s))
}

/// `p` is a prefix of `s`.
pub open spec fn has_prefix(s: Seq<char>, p: Seq<char>) -> bool {
    p.len() <= s.len() && s.subrange(0, p.len() as int) == p
}

/// `p` is a suffix of `s`.
pub open spec fn has_suffix(s: Seq<char>, p: Seq<char>) -> bool {
    p.len() <= s.len() && s.subrange(s.len() - p.len(), s.len() as int) == p
}

/// If the first `j` characters of `s` are whitespace and the one at `j`
/// (when there is one) is not, trimming from the start drops exactly them.
pub proof fn lemma_trim_start_at(s: Seq<char>, j: int)
    requires
        0 <= j <= s.len(),
        forall|k: int| 0 <= k < j ==> is_ws(s[k]),
        j < s.len() ==> !is_ws(s[j]),
    ensures
        trim_start(s) =~= s.subrange(j, s.len() as int),
    decreases j,
{
    if j == 0 {
        if s.len() > 0 && is_ws(s[0]) {
            assert(false);
        }
    } else {
        lemma_trim_start_at(s.drop_first(), j - 1);
    }
}

/// Trimming from the end keeps a non-whitespace head character in place.
pub proof fn lemma_trim_end_keeps_head(s: Seq<char>)
    requires
        s.len() > 0,
        !is_ws(s[0]),
    ensures
        trim_end(s).len() > 0,
        trim_end(s)[0] == s[0],
    decreases s.len(),
{
    if is_ws(s.last()) {
        lemma_trim_end_keeps_head(s.drop_last());
    }
}

/// If the characters of `s` from `e` on are whitespace and the one just
/// before `e` (when there is one) is not, trimming from the end drops
/// exactly them.
pub proof fn lemma_trim_end_at(s: Seq<char>, e: int)
    requires
        0 <= e <= s.len(),
        forall|k: int| e <= k < s.len() ==> is_ws(s[k]),
        e > 0 ==> !is_ws(s[e - 1]),
    ensures
        trim_end(s) =~= s.subrange(0, e),
    decreases s.len(),
{
    if e == s.len() {
        if s.len() > 0 && is_ws(s.last()) {
            assert(false);
        }
    } else {
        lemma_trim_end_at(s.drop_last(), e);
    }
}

/// Whether `p` is a prefix of `s`, by character comparison.
pub fn str_has_prefix(s: &str, p: &str) -> (r: bool)
    ensures
        r == has_prefix(s@, p@),
{
    let sn = s.unicode_len();
    let pn = p.unicode_len();
    if pn > sn {
        return false;
    }
    let mut i: usize = 0;
    while i < pn
        invariant
            0 <= i <= pn,
            pn <= sn,
            pn == p@.len(),
            sn == s@.len(),
            forall|k: int| 0 <= k < i ==> s@[k] == p@[k],
        decreases pn - i,
    {
        if s.get_char(i) != p.get_char(i) {
            proof {
                if has_prefix(s@, p@) {
                    assert(s@.subrange(0, p@.len() as int)[i as int] == s@[i as int]);
                }
            }
            return false;
        }
        i = i + 1;
    }
    proof {
        assert(s@.subrange(0, p@.len() as int) =~= p@);
    }
    true
}

/// Whether `a` and `b` hold the same characters.
pub fn str_eq(a: &str, b: &str) -> (r: bool)
    ensures
        r == (a@ == b@),
{
    let an = a.unicode_len();
    let bn = b.unicode_len();
    if an != bn {
        return false;
    }
    let mut i: usize = 0;
    while i < an
        invariant
            0 <= i <= an,
            an == a@.len(),
            an == b@.len(),
            forall|k: int| 0 <= k < i ==> a@[k] == b@[k],
        decreases an - i,
    {
        if a.get_char(i) != b.get_char(i) {
            return false;
        }
        i = i + 1;
    }
    proof {
        assert(a@ =~= b@);
    }
    true
}

/// Whether `p` is a suffix of `s`, by character comparison.
pub fn str_has_suffix(s: &str, p: &str) -> (r: bool)
    ensures
        r == has_suffix(s@, p@),
{
    let sn = s.unicode_len();
    let pn = p.unicode_len();
    if pn > sn {
        return false;
    }
    let off = sn - pn;
    let mut i: usize = 0;
    while i < pn
        invariant
            0 <= i <= pn,
            pn <= sn,
            pn == p@.len(),
            sn == s@.len(),
            off == sn - pn,
            forall|k: int| 0 <= k < i ==> s@[off + k] == p@[k],
        decreases pn - i,
    {
        if s.get_char(off + i) != p.get_char(i) {
            proof {
                if has_suffix(s@, p@) {
                    assert(s@.subrange(s@.len() - p@.len(), s@.len() as int)[i as int]
                        == s@[off + i]);
                }
            }
            return false;
        }
        i = i + 1;
    }
    proof {
        assert(s@.subrange(s@.len() - p@.len(), s@.len() as int) =~= p@);
    }
    true
}

} // verus!
