//! Where a text first occurs in a script's source, as a line and a column
//! counted from 0 (columns in bytes).
use vstd::prelude::*;
use vstd::string::StringSliceAdditionalSpecFns;

verus! {

/// `n` occurs in `h` at byte `i`.
pub open spec fn matches_at(h: Seq<u8>, n: Seq<u8>, i: int) -> bool {
    0 <= i && i + n.len() <= h.len() && h.subrange(i, i + n.len()) == n
}

/// The first byte at which `n` occurs in `h`, searching from `from`.
pub open spec fn first_match_from(h: Seq<u8>, n: Seq<u8>, from: int) -> Option<int>
    decreases h.len() + 1 - from,
{
    if from < 0 || from + n.len() > h.len() {
        None
    } else if matches_at(h, n, from) {
        Some(from)
    } else {
        first_match_from(h, n, from + 1)
    }
}

/// The number of line feeds in a run of bytes.
pub open spec fn count_nl(p: Seq<u8>) -> nat
    decreases p.len(),
{
    if p.len() == 0 {
        0
    } else {
        count_nl(p.drop_last()) + if p.last() == 10u8 { 1nat } else { 0nat }
    }
}

/// The index of the last line feed, or -1.
pub open spec fn last_nl(p: Seq<u8>) -> int
    decreases p.len(),
{
    if p.len() == 0 {
        -1
    } else if p.last() == 10u8 {
        p.len() - 1
    } else {
        last_nl(p.drop_last())
    }
}

/// The bytes after the last line feed.
pub open spec fn after_last_nl(p: Seq<u8>) -> Seq<u8> {
    p.subrange(last_nl(p) + 1, p.len() as int)
}

/// Line (counted from 0: the line feeds before the match) and column (the
/// bytes between the last of those line feeds and the match) of the first
/// occurrence.
pub open spec fn line_column(source: Seq<u8>, pattern: Seq<u8>) -> Option<(u32, u32)> {
    match first_match_from(source, pattern, 0) {
        Some(i) => {
            let prefix = source.subrange(0, i);
            Some((count_nl(prefix) as u32, after_last_nl(prefix).len() as u32))
        },
        None => None,
    }
}

proof fn lemma_last_nl_prefix(p: Seq<u8>, j: int)
    requires
        0 <= j <= p.len(),
        forall|k: int| j <= k < p.len() ==> p[k] != 10u8,
    ensures
        last_nl(p) == last_nl(p.take(j)),
    decreases p.len(),
{
    if j < p.len() {
        assert(p.drop_last().take(j) =~= p.take(j));
        lemma_last_nl_prefix(p.drop_last(), j);
    } else {
        assert(p.take(j) =~= p);
    }
}

pub(crate) proof fn lemma_first_match_found(h: Seq<u8>, n: Seq<u8>, from: int)
    requires
        first_match_from(h, n, from) is Some,
    ensures
        matches_at(h, n, first_match_from(h, n, from)->0),
        first_match_from(h, n, from)->0 >= from,
    decreases h.len() + 1 - from,
{
    if from >= 0 && from + n.len() <= h.len() && !matches_at(h, n, from) {
        lemma_first_match_found(h, n, from + 1);
    }
}


proof fn lemma_first_match_skip(h: Seq<u8>, n: Seq<u8>, from: int, to: int)
    requires
        0 <= from <= to,
        forall|k: int| from <= k < to ==> !matches_at(h, n, k),
    ensures
        first_match_from(h, n, from) == first_match_from(h, n, to),
    decreases to - from,
{
    if from < to {
        lemma_first_match_skip(h, n, from + 1, to);
    }
}

/// The first byte at which `needle` occurs in `hay`, as `str::find` reports it.
pub fn find_bytes(hay: &[u8], needle: &[u8]) -> (r: Option<usize>)
    ensures
        match r {
            Some(i) => first_match_from(hay@, needle@, 0) == Some(i as int),
            None => first_match_from(hay@, needle@, 0) is None,
        },
{
    let hl = hay.len();
    let nl = needle.len();
    if nl > hl {
        return None;
    }
    let last = hl - nl;
    let mut i: usize = 0;
    while i <= last
        invariant
            hl == hay@.len(),
            nl == needle@.len(),
            nl <= hl,
            last == hl - nl,
            i <= last,
            first_match_from(hay@, needle@, 0) == first_match_from(hay@, needle@, i as int),
        decreases last - i,
    {
        let mut j: usize = 0;
        let mut same = true;
        while j < nl
            invariant
                hl == hay@.len(),
                nl == needle@.len(),
                i <= last,
                last == hl - nl,
                j <= nl,
                same == (forall|t: int| 0 <= t < j ==> hay@[i + t] == needle@[t]),
            decreases nl - j,
        {
            assert(i + j < hl);
            if hay[i + j] != needle[j] {
                same = false;
            }
            j = j + 1;
        }
        if same {
            assert(hay@.subrange(i as int, i + nl) =~= needle@);
            return Some(i);
        }
        proof {
            let t = choose|t: int| 0 <= t < nl && hay@[i + t] != needle@[t];
            assert(hay@.subrange(i as int, i + nl)[t] != needle@[t]);
            assert(!matches_at(hay@, needle@, i as int));
        }
        if i == last {
            assert(first_match_from(hay@, needle@, i + 1) is None);
            return None;
        }
        i = i + 1;
    }
    None
}

/// The line and column of the first occurrence of `pattern` in `source`.
pub fn find_line_column(source: &str, pattern: &str) -> (r: Option<(u32, u32)>)
    ensures
        r == line_column(source.spec_bytes(), pattern.spec_bytes()),
{
    let h = source.as_bytes();
    let n = pattern.as_bytes();
    let idx = match find_bytes(h, n) {
        Some(i) => i,
        None => return None,
    };
    proof { lemma_first_match_found(h@, n@, 0); }
    let ghost prefix = h@.subrange(0, idx as int);
    // line feeds before the match
    let mut cnt: usize = 0;
    let mut k: usize = 0;
    while k < idx
        invariant
            idx <= h@.len(),
            prefix == h@.subrange(0, idx as int),
            k <= idx,
            cnt <= k,
            cnt == count_nl(prefix.take(k as int)),
        decreases idx - k,
    {
        assert(prefix.take(k + 1).drop_last() =~= prefix.take(k as int));
        if h[k] == 10u8 {
            cnt = cnt + 1;
        }
        k = k + 1;
    }
    assert(prefix.take(idx as int) =~= prefix);
    // back to the last line feed before the match
    let mut j: usize = idx;
    while j > 0 && h[j - 1] != 10u8
        invariant
            idx <= h@.len(),
            prefix == h@.subrange(0, idx as int),
            j <= idx,
            forall|t: int| j <= t < idx ==> prefix[t] != 10u8,
        decreases j,
    {
        j = j - 1;
    }
    proof {
        lemma_last_nl_prefix(prefix, j as int);
        if j > 0 {
            assert(prefix.take(j as int).last() == 10u8);
        } else {
            assert(prefix.take(0) =~= Seq::<u8>::empty());
        }
    }
    let col: usize = idx - j;
    let line: usize = cnt;
    Some((line as u32, col as u32))
}

} // verus!
