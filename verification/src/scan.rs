//! Character-sequence scanning: substring search and whitespace trimming,
//! used to read a column name out of a backend failure message.

use vstd::prelude::*;
use vstd::string::StrSliceExecFns;

verus! {

/// The needle `n` occurs in the haystack `h` starting at position `i`.
pub open spec fn match_at(h: Seq<char>, n: Seq<char>, i: int) -> bool {
    0 <= i && i + n.len() <= h.len() && h.subrange(i, i + n.len()) == n
}

/// The needle occurs somewhere in the haystack.
pub open spec fn has_match(h: Seq<char>, n: Seq<char>) -> bool {
    exists|i: int| match_at(h, n, i)
}

/// Position `i` is the last occurrence of the needle in the haystack.
pub open spec fn is_last_match(h: Seq<char>, n: Seq<char>, i: int) -> bool {
    match_at(h, n, i) && forall|j: int| i < j ==> !match_at(h, n, j)
}

/// The position of the last occurrence of the needle, meaningful when
/// one exists.
pub open spec fn last_match(h: Seq<char>, n: Seq<char>) -> int {
    choose|i: int| is_last_match(h, n, i)
}

/// What follows the last occurrence of the needle.
pub open spec fn tail_after_last(h: Seq<char>, n: Seq<char>) -> Seq<char> {
    h.subrange(last_match(h, n) + n.len(), h.len() as int)
}

/// The whitespace characters stripped around an extracted name.
pub open spec fn is_space_char(c: char) -> bool {
    c == ' ' || c == '\t' || c == '\n' || c == '\r'
}

/// The sequence with its leading whitespace removed.
pub open spec fn trim_start_spec(s: Seq<char>) -> Seq<char>
    decreases s.len(),
{
    if s.len() > 0 && is_space_char(s[0]) {
        trim_start_spec(s.drop_first())
    } else {
        s
    }
}

/// The sequence with its trailing whitespace removed.
pub open spec fn trim_end_spec(s: Seq<char>) -> Seq<char>
    decreases s.len(),
{
    if s.len() > 0 && is_space_char(s.last()) {
        trim_end_spec(s.drop_last())
    } else {
        s
    }
}

/// The sequence with whitespace removed on both sides.
pub open spec fn trim_spec(s: Seq<char>) -> Seq<char> {
    trim_end_spec(trim_start_spec(s))
}

/// What follows the last occurrence of the needle, trimmed.
pub open spec fn extracted_after(h: Seq<char>, n: Seq<char>) -> Seq<char> {
    trim_spec(tail_after_last(h, n))
}

proof fn lemma_trim_start_prefix(s: Seq<char>, a: int)
    requires
        0 <= a <= s.len(),
        forall|t: int| 0 <= t < a ==> is_space_char(s[t]),
        a == s.len() || !is_space_char(s[a]),
    ensures
        trim_start_spec(s) == s.subrange(a, s.len() as int),
    decreases a,
{
    if a == 0 {
        assert(s.subrange(0, s.len() as int) =~= s);
    } else {
        let s2 = s.drop_first();
        assert(forall|t: int| 0 <= t < a - 1 ==> is_space_char(s2[t]));
        lemma_trim_start_prefix(s2, a - 1);
        assert(s2.subrange(a - 1, s2.len() as int) =~= s.subrange(a, s.len() as int));
    }
}

proof fn lemma_trim_end_suffix(s: Seq<char>, b: int)
    requires
        0 <= b <= s.len(),
        forall|t: int| b <= t < s.len() ==> is_space_char(s[t]),
        b == 0 || !is_space_char(s[b - 1]),
    ensures
        trim_end_spec(s) == s.subrange(0, b),
    decreases s.len(),
{
    if b == s.len() {
        assert(s.subrange(0, b) =~= s);
    } else {
        let s2 = s.drop_last();
        assert(is_space_char(s.last()));
        assert(forall|t: int| b <= t < s2.len() ==> is_space_char(s2[t]));
        lemma_trim_end_suffix(s2, b);
        assert(s2.subrange(0, b) =~= s.subrange(0, b));
    }
}

/// A last occurrence is unique, so a found one is the occurrence the
/// specification speaks of.
pub proof fn lemma_last_match_unique(h: Seq<char>, n: Seq<char>, i: int)
    requires
        is_last_match(h, n, i),
    ensures
        last_match(h, n) == i,
{
    assert(exists|j: int| is_last_match(h, n, j));
    let c = last_match(h, n);
    assert(is_last_match(h, n, c));
    if c < i {
        assert(!match_at(h, n, i));
    } else if i < c {
        assert(!match_at(h, n, c));
    }
}

/// Whether a character counts as trimmable whitespace.
pub fn is_space(c: char) -> (r: bool)
    ensures
        r == is_space_char(c),
{
    c == ' ' || c == '\t' || c == '\n' || c == '\r'
}

/// Whether the needle occurs in the haystack at position `i`.
fn match_at_exec(h: &str, n: &str, i: usize) -> (r: bool)
    requires
        i + n@.len() <= h@.len(),
    ensures
        r == match_at(h@, n@, i as int),
{
    let hl = h.unicode_len();
    let nl = n.unicode_len();
    let mut k: usize = 0;
    while k < nl
        invariant
            0 <= k <= nl,
            nl == n@.len(),
            hl == h@.len(),
            i + nl <= hl,
            forall|t: int| 0 <= t < k ==> h@[i + t] == n@[t],
        decreases nl - k,
    {
        if h.get_char(i + k) != n.get_char(k) {
            proof {
                assert(h@.subrange(i as int, i + n@.len())[k as int] != n@[k as int]);
            }
            return false;
        }
        k += 1;
    }
    proof {
        assert(h@.subrange(i as int, i + n@.len()) =~= n@);
    }
    true
}

/// The position of the last occurrence of the needle in the haystack,
/// or nothing when the needle does not occur.
pub fn find_last(h: &str, n: &str) -> (r: Option<usize>)
    ensures
        match r {
            Some(i) => is_last_match(h@, n@, i as int),
            None => !has_match(h@, n@),
        },
{
    let hl = h.unicode_len();
    let nl = n.unicode_len();
    if nl > hl {
        proof {
            assert(forall|i: int| !match_at(h@, n@, i));
        }
        return None;
    }
    let mut i: usize = hl - nl;
    loop
        invariant
            0 <= i <= hl - nl,
            nl <= hl,
            hl == h@.len(),
            nl == n@.len(),
            forall|j: int| i < j ==> !match_at(h@, n@, j),
        decreases i + 1,
    {
        if match_at_exec(h, n, i) {
            return Some(i);
        }
        if i == 0 {
            proof {
                assert(forall|j: int| !match_at(h@, n@, j));
            }
            return None;
        }
        i -= 1;
    }
}

/// Whether an extracted piece of a backend message reports the given
/// name: it is the name, or the name followed by whitespace and more
/// message text.
pub open spec fn reports_name(e: Seq<char>, n: Seq<char>) -> bool {
    match_at(e, n, 0) && (e.len() == n.len() || is_space_char(e[n.len() as int]))
}

/// Decides [`reports_name`] for an extracted piece and a column name.
pub fn reported_matches(e: &str, n: &str) -> (r: bool)
    ensures
        r == reports_name(e@, n@),
{
    let el = e.unicode_len();
    let nl = n.unicode_len();
    if nl > el {
        return false;
    }
    if !match_at_exec(e, n, 0) {
        return false;
    }
    if el == nl {
        return true;
    }
    is_space(e.get_char(nl))
}

/// Whether the needle occurs anywhere in the haystack.
pub fn contains(h: &str, n: &str) -> (r: bool)
    ensures
        r == has_match(h@, n@),
{
    find_last(h, n).is_some()
}

/// A copy of the string with whitespace removed on both sides.
pub fn trim(s: &str) -> (r: String)
    ensures
        r@ == trim_spec(s@),
{
    let len = s.unicode_len();
    let mut a: usize = 0;
    while a < len && is_space(s.get_char(a))
        invariant
            0 <= a <= len,
            len == s@.len(),
            forall|t: int| 0 <= t < a ==> is_space_char(s@[t]),
        decreases len - a,
    {
        a += 1;
    }
    proof {
        lemma_trim_start_prefix(s@, a as int);
    }
    let mut b: usize = len;
    while b > a && is_space(s.get_char(b - 1))
        invariant
            a <= b <= len,
            len == s@.len(),
            forall|t: int| b <= t < len ==> is_space_char(s@[t]),
            trim_start_spec(s@) == s@.subrange(a as int, len as int),
        decreases b,
    {
        b -= 1;
    }
    proof {
        let t1 = s@.subrange(a as int, len as int);
        assert(forall|t: int| b - a <= t < t1.len() ==> is_space_char(t1[t]));
        lemma_trim_end_suffix(t1, b - a);
        assert(t1.subrange(0, b - a) =~= s@.subrange(a as int, b as int));
    }
    let piece = s.substring_char(a, b);
    piece.to_owned()
}

} // verus!
