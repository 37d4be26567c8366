//! The line grammar of an INI file: what one raw line means. Assembling
//! classified lines into sections is left to the caller, whose nested
//! string-keyed maps the verifier cannot describe.

use vstd::prelude::*;
use vstd::slice::slice_subrange;
use vstd::string::StringSliceAdditionalSpecFns;
use crate::search::{find_from, find_subslice, is_match_at, trim_bytes, trim_slice};
use vstd::slice::slice_to_vec;

verus! {

/// An opening or closing section bracket.
pub open spec fn is_bracket(b: u8) -> bool {
    b == 91 || b == 93
}

/// The bytes with leading brackets removed.
pub open spec fn strip_brackets_start(s: Seq<u8>) -> Seq<u8>
    decreases s.len(),
{
    if s.len() > 0 && is_bracket(s[0]) {
        strip_brackets_start(s.drop_first())
    } else {
        s
    }
}

/// The bytes with trailing brackets removed.
pub open spec fn strip_brackets_end(s: Seq<u8>) -> Seq<u8>
    decreases s.len(),
{
    if s.len() > 0 && is_bracket(s.last()) {
        strip_brackets_end(s.drop_last())
    } else {
        s
    }
}

/// The bytes with brackets removed from both ends: a section header's name.
pub open spec fn section_name_of(s: Seq<u8>) -> Seq<u8> {
    strip_brackets_end(strip_brackets_start(s))
}

proof fn lemma_strip_brackets_start(s: Seq<u8>, k: int)
    requires
        0 <= k <= s.len(),
        forall|j: int| 0 <= j < k ==> is_bracket(#[trigger] s[j]),
        k < s.len() ==> !is_bracket(s[k]),
    ensures
        strip_brackets_start(s) == s.subrange(k, s.len() as int),
    decreases k,
{
    if k == 0 {
        assert(strip_brackets_start(s) =~= s.subrange(0, s.len() as int));
    } else {
        let rest = s.drop_first();
        assert forall|j: int| 0 <= j < s.len() - 1 implies rest[j] == s[j + 1] by {}
        lemma_strip_brackets_start(rest, k - 1);
        assert(rest.subrange(k - 1, rest.len() as int) =~= s.subrange(k, s.len() as int));
    }
}

proof fn lemma_strip_brackets_end(s: Seq<u8>, e: int)
    requires
        0 <= e <= s.len(),
        forall|j: int| e <= j < s.len() ==> is_bracket(#[trigger] s[j]),
        e > 0 ==> !is_bracket(s[e - 1]),
    ensures
        strip_brackets_end(s) == s.subrange(0, e),
    decreases s.len() - e,
{
    if e == s.len() {
        if s.len() > 0 && is_bracket(s.last()) {
            let head = s.drop_last();
            assert forall|j: int| (s.len() - 1) <= j < head.len() implies is_bracket(
                #[trigger] head[j],
            ) by {}
            lemma_strip_brackets_end(head, e - 1);
            assert(head.subrange(0, e - 1) =~= s.subrange(0, e - 1));
            assert(e - 1 == head.len());
            assert(head.subrange(0, head.len() as int) =~= head);
            assert(s.subrange(0, e) =~= head);
        } else {
            assert(strip_brackets_end(s) =~= s.subrange(0, e));
        }
    } else {
        let head = s.drop_last();
        assert(is_bracket(s.last()));
        assert forall|j: int| e <= j < head.len() implies is_bracket(#[trigger] head[j]) by {}
        lemma_strip_brackets_end(head, e);
        assert(head.subrange(0, e) =~= s.subrange(0, e));
    }
}

/// The bytes with leading equals signs removed: what follows the first
/// equals sign of a key-value line, before trimming.
pub open spec fn strip_eq_start(s: Seq<u8>) -> Seq<u8>
    decreases s.len(),
{
    if s.len() > 0 && s[0] == 61 {
        strip_eq_start(s.drop_first())
    } else {
        s
    }
}

proof fn lemma_strip_eq_start(s: Seq<u8>, k: int)
    requires
        0 <= k <= s.len(),
        forall|j: int| 0 <= j < k ==> (#[trigger] s[j]) == 61,
        k < s.len() ==> s[k] != 61,
    ensures
        strip_eq_start(s) == s.subrange(k, s.len() as int),
    decreases k,
{
    if k == 0 {
        assert(strip_eq_start(s) =~= s.subrange(0, s.len() as int));
    } else {
        let rest = s.drop_first();
        assert forall|j: int| 0 <= j < s.len() - 1 implies rest[j] == s[j + 1] by {}
        lemma_strip_eq_start(rest, k - 1);
        assert(rest.subrange(k - 1, rest.len() as int) =~= s.subrange(k, s.len() as int));
    }
}

/// What one raw line of an INI file means.
pub enum IniLine {
    /// Nothing but whitespace.
    Blank,
    /// `[name]`: the following entries belong to this section.
    SectionHeader(Vec<u8>),
    /// A header with more than one pair of brackets.
    BadHeader,
    /// `key = value`.
    Pair(Vec<u8>, Vec<u8>),
    /// A key-value line whose value itself holds an equals sign.
    BadValue,
    /// A bare key, standing for the empty value.
    Bare(Vec<u8>),
}

/// What the classifier must return for the given line bytes.
pub open spec fn line_meaning(line: Seq<u8>, r: IniLine) -> bool {
    let t = trim_bytes(line);
    if t.len() == 0 {
        r is Blank
    } else if t[0] == 91 && t.last() == 93 {
        let name = section_name_of(t);
        if t.len() - name.len() > 2 {
            r is BadHeader
        } else {
            r matches IniLine::SectionHeader(n) && n@ == name
        }
    } else if find_from(t, seq![61u8], 0) >= 0 {
        let pos = find_from(t, seq![61u8], 0);
        let key = trim_bytes(t.subrange(0, pos));
        let value = trim_bytes(strip_eq_start(t.subrange(pos, t.len() as int)));
        if find_from(value, seq![61u8], 0) >= 0 {
            r is BadValue
        } else {
            r matches IniLine::Pair(k, v) && k@ == key && v@ == value
        }
    } else {
        r matches IniLine::Bare(k) && k@ == t
    }
}

/// Classify one raw line: blank, section header, key-value pair, or bare
/// key, with the malformed shapes refused. Whitespace is trimmed from the
/// line and from both sides of keys and values; a header's name is the
/// text inside the brackets.
pub fn classify_ini_line(line: &str) -> (r: IniLine)
    ensures
        line_meaning(line.spec_bytes(), r),
{
    let bytes = line.as_bytes();
    let t = trim_slice(bytes);
    let n = t.len();
    if n == 0 {
        return IniLine::Blank;
    }
    if t[0] == 91 && t[n - 1] == 93 {
        // Strip every leading and trailing bracket to find the name.
        let mut start: usize = 0;
        while start < n && (t[start] == 91 || t[start] == 93)
            invariant
                n == t@.len(),
                start <= n,
                forall|j: int| 0 <= j < start ==> is_bracket(#[trigger] t@[j]),
            decreases n - start,
        {
            start += 1;
        }
        proof {
            lemma_strip_brackets_start(t@, start as int);
        }
        let inner = slice_subrange(t, start, n);
        let m = inner.len();
        let mut end: usize = m;
        while end > 0 && (inner[end - 1] == 91 || inner[end - 1] == 93)
            invariant
                m == inner@.len(),
                end <= m,
                forall|j: int| end <= j < m ==> is_bracket(#[trigger] inner@[j]),
            decreases end,
        {
            end -= 1;
        }
        proof {
            lemma_strip_brackets_end(inner@, end as int);
        }
        let name = slice_subrange(inner, 0, end);
        if n - name.len() > 2 {
            return IniLine::BadHeader;
        }
        return IniLine::SectionHeader(slice_to_vec(name));
    }
    let eq: Vec<u8> = vec![61u8];
    proof {
        assert(eq@ =~= seq![61u8]);
    }
    match find_subslice(t, eq.as_slice()) {
        Some(pos) => {
            proof {
                assert(is_match_at(t@, seq![61u8], pos as int));
            }
            let key = trim_slice(slice_subrange(t, 0, pos));
            let right = slice_subrange(t, pos, n);
            let rn = right.len();
            let mut k: usize = 0;
            while k < rn && right[k] == 61
                invariant
                    rn == right@.len(),
                    k <= rn,
                    forall|j: int| 0 <= j < k ==> (#[trigger] right@[j]) == 61,
                decreases rn - k,
            {
                k += 1;
            }
            proof {
                lemma_strip_eq_start(right@, k as int);
            }
            let value = trim_slice(slice_subrange(right, k, rn));
            match find_subslice(value, eq.as_slice()) {
                Some(_) => IniLine::BadValue,
                None => IniLine::Pair(slice_to_vec(key), slice_to_vec(value)),
            }
        },
        None => IniLine::Bare(slice_to_vec(t)),
    }
}

} // verus!
