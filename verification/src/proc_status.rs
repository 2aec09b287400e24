//! The real user id in the text of a process status file
//! (`/proc/self/status`), which the desktop session variables are derived
//! from.
use vstd::prelude::*;
use crate::debugger::{digits_value, is_digit, lemma_digits_value_grows};
use crate::text::{chars_of, is_ws};

verus! {

fn ws(c: char) -> (b: bool)
    ensures
        b == is_ws(c),
{
    ('\t' <= c && c <= '\r') || c == ' ' || c == '\u{85}' || c == '\u{A0}' || c == '\u{1680}'
        || ('\u{2000}' <= c && c <= '\u{200A}') || c == '\u{2028}' || c == '\u{2029}' || c == '\u{202F}'
        || c == '\u{205F}' || c == '\u{3000}'
}

/// `t[a..b]` is the first white-space separated word of `t`.
pub open spec fn word_bounds(t: Seq<char>, a: int, b: int) -> bool {
    &&& 0 <= a < b <= t.len()
    &&& forall|k: int| 0 <= k < a ==> is_ws(#[trigger] t[k])
    &&& forall|k: int| a <= k < b ==> !is_ws(#[trigger] t[k])
    &&& (b == t.len() || is_ws(t[b]))
}

/// The first word of a text, as `split_whitespace().next()` gives it.
pub open spec fn first_word(t: Seq<char>) -> Option<Seq<char>> {
    if exists|a: int, b: int| word_bounds(t, a, b) {
        let (a, b) = choose|a: int, b: int| word_bounds(t, a, b);
        Some(t.subrange(a, b))
    } else {
        None
    }
}

/// A text has one first word at most.
proof fn lemma_word_bounds_unique(t: Seq<char>, a: int, b: int, a2: int, b2: int)
    requires
        word_bounds(t, a, b),
        word_bounds(t, a2, b2),
    ensures
        a == a2 && b == b2,
{
    if a < a2 {
        assert(is_ws(t[a]));
    }
    if a2 < a {
        assert(is_ws(t[a2]));
    }
    if b < b2 {
        assert(!is_ws(t[b]));
    }
    if b2 < b {
        assert(!is_ws(t[b2]));
    }
}

/// The digits after an optional `+`.
pub open spec fn plus_stripped(w: Seq<char>) -> Seq<char> {
    if w.len() > 0 && w[0] == '+' { w.drop_first() } else { w }
}

/// What `str::parse::<u32>` gives: an optional `+`, then at least one
/// decimal digit, the value in range; `None` for any other text.
pub open spec fn parsed_u32(w: Seq<char>) -> Option<u32> {
    let d = plus_stripped(w);
    if d.len() == 0 || !(forall|i: int| 0 <= i < d.len() ==> is_digit(#[trigger] d[i])) {
        None
    } else if digits_value(d) <= u32::MAX {
        Some(digits_value(d) as u32)
    } else {
        None
    }
}

/// The end of the line that starts at `i`: the next line feed, or the end.
pub open spec fn line_end(s: Seq<char>, i: int) -> int
    decreases s.len() - i,
{
    if i < 0 || i >= s.len() {
        s.len() as int
    } else if s[i] == '\n' {
        i
    } else {
        line_end(s, i + 1)
    }
}

pub proof fn lemma_line_end(s: Seq<char>, i: int)
    requires
        0 <= i <= s.len(),
    ensures
        i <= line_end(s, i) <= s.len(),
        line_end(s, i) < s.len() ==> s[line_end(s, i)] == '\n',
        forall|k: int| i <= k < line_end(s, i) ==> s[k] != '\n',
    decreases s.len() - i,
{
    if i < s.len() && s[i] != '\n' {
        lemma_line_end(s, i + 1);
    }
}

/// The line from `i` to `e` starts with `Uid:`.
pub open spec fn is_uid_line(s: Seq<char>, i: int, e: int) -> bool {
    e - i >= 4 && s.subrange(i, i + 4) == "Uid:"@
}

/// The user id in a status text read from line start `i` on: the first line
/// that starts with `Uid:` decides; its first word is parsed as a `u32`.
/// `None` when no line starts with `Uid:`, or that line's first word is
/// missing or is no `u32`.
pub open spec fn uid_from(s: Seq<char>, i: int) -> Option<u32>
    decreases s.len() - i,
{
    if i < 0 || i >= s.len() {
        None
    } else {
        let e = line_end(s, i);
        if is_uid_line(s, i, e) {
            match first_word(s.subrange(i + 4, e)) {
                Some(w) => parsed_u32(w),
                None => None,
            }
        } else if e < s.len() {
            proof { lemma_line_end(s, i); }
            uid_from(s, e + 1)
        } else {
            None
        }
    }
}

/// Parses the word `c[a..b]` as a `u32`.
fn parse_u32_at(c: &Vec<char>, a: usize, b: usize) -> (r: Option<u32>)
    requires
        a <= b <= c@.len(),
    ensures
        r == parsed_u32(c@.subrange(a as int, b as int)),
{
    let ghost w = c@.subrange(a as int, b as int);
    let start: usize = if a < b && c[a] == '+' { a + 1 } else { a };
    let ghost d = plus_stripped(w);
    assert(d =~= c@.subrange(start as int, b as int));
    if start == b {
        return None;
    }
    let mut acc: u64 = 0;
    let mut i: usize = start;
    while i < b
        invariant
            a <= start <= i <= b <= c@.len(),
            start < b,
            w == c@.subrange(a as int, b as int),
            d == plus_stripped(w),
            d == c@.subrange(start as int, b as int),
            forall|j: int| 0 <= j < i - start ==> is_digit(#[trigger] d[j]),
            acc == digits_value(d.take(i - start)),
            acc <= u32::MAX,
        decreases b - i,
    {
        let ch = c[i];
        if !('0' <= ch && ch <= '9') {
            assert(!is_digit(d[i - start]));
            return None;
        }
        let v: u64 = (ch as u32 - 48) as u64;
        assert(d.take(i - start + 1).drop_last() =~= d.take(i - start));
        assert(d.take(i - start + 1).last() == ch);
        acc = acc * 10 + v;
        assert(acc == digits_value(d.take(i - start + 1)));
        if acc > 4294967295 {
            proof {
                if forall|j: int| 0 <= j < d.len() ==> is_digit(#[trigger] d[j]) {
                    lemma_digits_value_grows(d, i - start + 1);
                }
            }
            return None;
        }
        i = i + 1;
    }
    assert(d.take(b - start) =~= d);
    Some(acc as u32)
}

/// Parses the first word of `c[a..e]` as a `u32`.
fn first_word_u32(c: &Vec<char>, a: usize, e: usize) -> (r: Option<u32>)
    requires
        a <= e <= c@.len(),
    ensures
        r == match first_word(c@.subrange(a as int, e as int)) {
            Some(w) => parsed_u32(w),
            None => None,
        },
{
    let ghost t = c@.subrange(a as int, e as int);
    let mut s: usize = a;
    while s < e && ws(c[s])
        invariant
            a <= s <= e <= c@.len(),
            t == c@.subrange(a as int, e as int),
            forall|k: int| 0 <= k < s - a ==> is_ws(#[trigger] t[k]),
        decreases e - s,
    {
        s = s + 1;
    }
    if s == e {
        proof {
            assert forall|x: int, y: int| !word_bounds(t, x, y) by {
                if word_bounds(t, x, y) {
                    assert(!is_ws(t[x]));
                }
            }
        }
        return None;
    }
    let mut f: usize = s + 1;
    while f < e && !ws(c[f])
        invariant
            a <= s < f <= e <= c@.len(),
            t == c@.subrange(a as int, e as int),
            forall|k: int| s - a <= k < f - a ==> !is_ws(#[trigger] t[k]),
        decreases e - f,
    {
        f = f + 1;
    }
    proof {
        assert(word_bounds(t, s - a, f - a));
        let (x, y) = choose|x: int, y: int| word_bounds(t, x, y);
        lemma_word_bounds_unique(t, x, y, s - a, f - a);
        assert(t.subrange(s - a, f - a) =~= c@.subrange(s as int, f as int));
    }
    parse_u32_at(c, s, f)
}

/// The real user id in the text of a process status file: the first word
/// after `Uid:` on the first line that starts with it.
pub fn uid_from_status(status: &str) -> (r: Option<u32>)
    ensures
        r == uid_from(status@, 0),
{
    let c = chars_of(status);
    let n = c.len();
    let mut i: usize = 0;
    while i < n
        invariant
            c@ == status@,
            n == c@.len(),
            i <= n,
            uid_from(c@, 0) == uid_from(c@, i as int),
        decreases n - i,
    {
        let mut e: usize = i;
        while e < n && c[e] != '\n'
            invariant
                i <= e <= n,
                n == c@.len(),
                line_end(c@, i as int) == line_end(c@, e as int),
            decreases n - e,
        {
            e = e + 1;
        }
        proof { lemma_line_end(c@, i as int); }
        if e - i >= 4 && c[i] == 'U' && c[i + 1] == 'i' && c[i + 2] == 'd' && c[i + 3] == ':' {
            proof {
                reveal_strlit("Uid:");
                assert(c@.subrange(i as int, i + 4) =~= "Uid:"@);
            }
            return first_word_u32(&c, i + 4, e);
        }
        proof {
            reveal_strlit("Uid:");
            if e - i >= 4 {
                assert(!is_uid_line(c@, i as int, e as int)) by {
                    if c@.subrange(i as int, i + 4) == "Uid:"@ {
                        assert(c@.subrange(i as int, i + 4)[0] == c@[i as int]);
                        assert(c@.subrange(i as int, i + 4)[1] == c@[i + 1]);
                        assert(c@.subrange(i as int, i + 4)[2] == c@[i + 2]);
                        assert(c@.subrange(i as int, i + 4)[3] == c@[i + 3]);
                    }
                }
            }
        }
        if e == n {
            return None;
        }
        i = e + 1;
    }
    None
}

} // verus!
