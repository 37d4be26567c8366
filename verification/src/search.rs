//! Byte-level searching: equality, first occurrence of a subslice, and
//! substring containment for text lines.

use vstd::prelude::*;
use vstd::slice::slice_subrange;
use vstd::string::StringSliceAdditionalSpecFns;

verus! {

/// `needle` occurs in `hay` starting at position `i`.
pub open spec fn is_match_at(hay: Seq<u8>, needle: Seq<u8>, i: int) -> bool {
    &&& 0 <= i
    &&& i + needle.len() <= hay.len()
    &&& hay.subrange(i, i + needle.len()) == needle
}

/// The first position at or after `i` where `needle` occurs in `hay`, or
/// -1 when it occurs nowhere there.
pub open spec fn find_from(hay: Seq<u8>, needle: Seq<u8>, i: int) -> int
    decreases hay.len() - i,
{
    if i < 0 || i + needle.len() > hay.len() {
        -1
    } else if needle.len() == 0 {
        i
    } else if hay.subrange(i, i + needle.len()) == needle {
        i
    } else {
        find_from(hay, needle, i + 1)
    }
}

/// What `find_from` means: its answer is the first match at or after `i`.
pub proof fn lemma_find_from(hay: Seq<u8>, needle: Seq<u8>, i: int)
    requires
        0 <= i,
    ensures
        find_from(hay, needle, i) < 0 ==> forall|j: int| i <= j ==> !is_match_at(hay, needle, j),
        find_from(hay, needle, i) >= 0 ==> i <= find_from(hay, needle, i) && is_match_at(
            hay,
            needle,
            find_from(hay, needle, i),
        ) && forall|j: int| i <= j < find_from(hay, needle, i) ==> !is_match_at(hay, needle, j),
    decreases hay.len() - i,
{
    if i + needle.len() > hay.len() {
        assert forall|j: int| i <= j implies !is_match_at(hay, needle, j) by {}
    } else if needle.len() == 0 {
        assert(hay.subrange(i, i) =~= needle);
    } else if hay.subrange(i, i + needle.len()) == needle {
    } else {
        lemma_find_from(hay, needle, i + 1);
    }
}

/// Whether two byte slices hold the same bytes.
pub fn eq_bytes(a: &[u8], b: &[u8]) -> (r: bool)
    ensures
        r == (a@ == b@),
{
    if a.len() != b.len() {
        proof {
            assert(a@.len() != b@.len());
        }
        return false;
    }
    let n = a.len();
    let mut i: usize = 0;
    while i < n
        invariant
            n == a@.len(),
            n == b@.len(),
            i <= n,
            forall|j: int| 0 <= j < i ==> a@[j] == b@[j],
        decreases n - i,
    {
        if a[i] != b[i] {
            proof {
                assert(a@ != b@);
            }
            return false;
        }
        i += 1;
    }
    proof {
        assert(a@ =~= b@);
    }
    true
}

/// The first occurrence of `needle` in `hay`, if any.
pub fn find_subslice(hay: &[u8], needle: &[u8]) -> (r: Option<usize>)
    ensures
        r matches Some(i) ==> i as int == find_from(hay@, needle@, 0) && is_match_at(
            hay@,
            needle@,
            i as int,
        ),
        r is None ==> find_from(hay@, needle@, 0) < 0,
{
    let nh = hay.len();
    let nn = needle.len();
    if nn == 0 {
        proof {
            assert(hay@.subrange(0, 0) =~= needle@);
        }
        return Some(0);
    }
    if nn > nh {
        proof {
            lemma_find_from(hay@, needle@, 0);
            assert forall|j: int| 0 <= j implies !is_match_at(hay@, needle@, j) by {}
        }
        return None;
    }
    let mut i: usize = 0;
    while i <= nh - nn
        invariant
            1 <= nn <= nh,
            nh == hay@.len(),
            nn == needle@.len(),
            i <= nh - nn + 1,
            forall|j: int| 0 <= j < i ==> !is_match_at(hay@, needle@, j),
        decreases nh - nn + 1 - i,
    {
        let window = slice_subrange(hay, i, i + nn);
        if eq_bytes(window, needle) {
            proof {
                lemma_find_from(hay@, needle@, 0);
                assert(is_match_at(hay@, needle@, i as int));
            }
            return Some(i);
        }
        proof {
            assert(!is_match_at(hay@, needle@, i as int));
        }
        i += 1;
    }
    proof {
        lemma_find_from(hay@, needle@, 0);
        assert forall|j: int| 0 <= j implies !is_match_at(hay@, needle@, j) by {}
    }
    None
}

/// Whether `pattern`'s bytes occur inside `line`'s bytes.
pub fn line_contains(line: &str, pattern: &str) -> (r: bool)
    ensures
        r == (find_from(line.spec_bytes(), pattern.spec_bytes(), 0) >= 0),
{
    let h = line.as_bytes();
    let n = pattern.as_bytes();
    match find_subslice(h, n) {
        Some(_) => true,
        None => false,
    }
}

/// ASCII whitespace, as trimmed from the ends of tokens.
pub open spec fn is_ws(b: u8) -> bool {
    b == 32 || (9 <= b && b <= 13)
}

/// The bytes with leading ASCII whitespace removed.
pub open spec fn trim_start_bytes(s: Seq<u8>) -> Seq<u8>
    decreases s.len(),
{
    if s.len() > 0 && is_ws(s[0]) {
        trim_start_bytes(s.drop_first())
    } else {
        s
    }
}

/// The bytes with trailing ASCII whitespace removed.
pub open spec fn trim_end_bytes(s: Seq<u8>) -> Seq<u8>
    decreases s.len(),
{
    if s.len() > 0 && is_ws(s.last()) {
        trim_end_bytes(s.drop_last())
    } else {
        s
    }
}

/// The bytes with ASCII whitespace removed from both ends.
pub open spec fn trim_bytes(s: Seq<u8>) -> Seq<u8> {
    trim_end_bytes(trim_start_bytes(s))
}

pub proof fn lemma_trim_start(s: Seq<u8>, k: int)
    requires
        0 <= k <= s.len(),
        forall|j: int| 0 <= j < k ==> is_ws(#[trigger] s[j]),
        k < s.len() ==> !is_ws(s[k]),
    ensures
        trim_start_bytes(s) == s.subrange(k, s.len() as int),
    decreases k,
{
    if k == 0 {
        assert(trim_start_bytes(s) =~= s.subrange(0, s.len() as int));
    } else {
        let rest = s.drop_first();
        assert forall|j: int| 0 <= j < s.len() - 1 implies rest[j] == s[j + 1] by {}
        lemma_trim_start(rest, k - 1);
        assert(rest.subrange(k - 1, rest.len() as int) =~= s.subrange(k, s.len() as int));
    }
}

pub proof fn lemma_trim_end(s: Seq<u8>, e: int)
    requires
        0 <= e <= s.len(),
        forall|j: int| e <= j < s.len() ==> is_ws(#[trigger] s[j]),
        e > 0 ==> !is_ws(s[e - 1]),
    ensures
        trim_end_bytes(s) == s.subrange(0, e),
    decreases s.len() - e,
{
    if e == s.len() {
        if s.len() > 0 && is_ws(s.last()) {
            let head = s.drop_last();
            assert forall|j: int| (s.len() - 1) <= j < head.len() implies is_ws(
                #[trigger] head[j],
            ) by {}
            lemma_trim_end(head, e - 1);
            assert(head.subrange(0, e - 1) =~= s.subrange(0, e - 1));
            assert(e - 1 == head.len());
            assert(trim_end_bytes(s) == trim_end_bytes(head));
            assert(head.subrange(0, head.len() as int) =~= head);
            assert(s.subrange(0, e) =~= head);
        } else {
            assert(trim_end_bytes(s) =~= s.subrange(0, e));
        }
    } else {
        let head = s.drop_last();
        assert(is_ws(s.last()));
        assert forall|j: int| e <= j < head.len() implies is_ws(#[trigger] head[j]) by {}
        lemma_trim_end(head, e);
        assert(head.subrange(0, e) =~= s.subrange(0, e));
    }
}

/// The given slice with ASCII whitespace removed from both ends.
pub fn trim_slice(s: &[u8]) -> (t: &[u8])
    ensures
        t@ == trim_bytes(s@),
{
    let n = s.len();
    let mut start: usize = 0;
    while start < n && (s[start] == 32 || (9 <= s[start] && s[start] <= 13))
        invariant
            n == s@.len(),
            start <= n,
            forall|j: int| 0 <= j < start ==> is_ws(#[trigger] s@[j]),
        decreases n - start,
    {
        start += 1;
    }
    proof {
        lemma_trim_start(s@, start as int);
    }
    let rest = slice_subrange(s, start, n);
    let m = rest.len();
    let mut end: usize = m;
    while end > 0 && (rest[end - 1] == 32 || (9 <= rest[end - 1] && rest[end - 1] <= 13))
        invariant
            m == rest@.len(),
            end <= m,
            forall|j: int| end <= j < m ==> is_ws(#[trigger] rest@[j]),
        decreases end,
    {
        end -= 1;
    }
    proof {
        lemma_trim_end(rest@, end as int);
    }
    slice_subrange(rest, 0, end)
}

} // verus!
