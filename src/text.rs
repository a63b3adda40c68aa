//! Plain-text helpers: whitespace trimming and splitting into lines.

use vstd::prelude::*;
use crate::notice::ids_of;

verus! {

/// Unicode `White_Space`, the set that `char::is_whitespace` tests.
pub open spec fn is_space(c: char) -> bool {
    ('\u{9}' <= c && c <= '\u{d}') || c == ' ' || c == '\u{85}' || c == '\u{a0}'
        || c == '\u{1680}' || ('\u{2000}' <= c && c <= '\u{200a}') || c == '\u{2028}'
        || c == '\u{2029}' || c == '\u{202f}' || c == '\u{205f}' || c == '\u{3000}'
}

/// `s` without its leading whitespace.
pub open spec fn trim_start(s: Seq<char>) -> Seq<char>
    decreases s.len(),
{
    if s.len() > 0 && is_space(s[0]) {
        trim_start(s.drop_first())
    } else {
        s
    }
}

/// `s` without its trailing whitespace.
pub open spec fn trim_end(s: Seq<char>) -> Seq<char>
    decreases s.len(),
{
    if s.len() > 0 && is_space(s.last()) {
        trim_end(s.drop_last())
    } else {
        s
    }
}

/// `s` without leading or trailing whitespace.
pub open spec fn trimmed(s: Seq<char>) -> Seq<char> {
    trim_end(trim_start(s))
}

/// A blank entry holds whitespace at most.
pub open spec fn is_blank(s: Seq<char>) -> bool {
    trimmed(s).len() == 0
}

/// The pieces of `s` between newlines, as `str::split('\n')` yields them:
/// an empty text is one empty line, and a final newline ends in an empty line.
pub open spec fn split_lines(s: Seq<char>) -> Seq<Seq<char>>
    decreases s.len(),
{
    if s.len() == 0 {
        seq![Seq::<char>::empty()]
    } else {
        let pre = split_lines(s.drop_last());
        if s.last() == '\n' {
            pre.push(Seq::<char>::empty())
        } else {
            pre.update(pre.len() - 1, pre.last().push(s.last()))
        }
    }
}

/// Tests a character for Unicode whitespace.
pub fn is_space_char(c: char) -> (r: bool)
    ensures
        r == is_space(c),
{
    ('\u{9}' <= c && c <= '\u{d}') || c == ' ' || c == '\u{85}' || c == '\u{a0}'
        || c == '\u{1680}' || ('\u{2000}' <= c && c <= '\u{200a}') || c == '\u{2028}'
        || c == '\u{2029}' || c == '\u{202f}' || c == '\u{205f}' || c == '\u{3000}'
}

/// Copies `s` without leading or trailing whitespace.
pub fn trim(s: &str) -> (r: String)
    ensures
        r@ == trimmed(s@),
{
    let n = s.unicode_len();
    let mut i: usize = 0;
    assert(s@.subrange(0, n as int) =~= s@);
    while i < n && is_space_char(s.get_char(i))
        invariant
            n == s@.len(),
            i <= n,
            trim_start(s@) == trim_start(s@.subrange(i as int, n as int)),
        decreases n - i,
    {
        assert(s@.subrange(i as int, n as int).drop_first() =~= s@.subrange(
            i + 1,
            n as int,
        ));
        i = i + 1;
    }
    assert(trim_start(s@.subrange(i as int, n as int)) == s@.subrange(i as int, n as int));
    let mut j: usize = n;
    while j > i && is_space_char(s.get_char(j - 1))
        invariant
            n == s@.len(),
            i <= j <= n,
            trimmed(s@) == trim_end(s@.subrange(i as int, j as int)),
        decreases j,
    {
        assert(s@.subrange(i as int, j as int).drop_last() =~= s@.subrange(
            i as int,
            j - 1,
        ));
        j = j - 1;
    }
    String::from_str(s.substring_char(i, j))
}

proof fn lemma_split_lines_nonempty(s: Seq<char>)
    ensures
        split_lines(s).len() >= 1,
    decreases s.len(),
{
    if s.len() > 0 {
        lemma_split_lines_nonempty(s.drop_last());
    }
}

/// The lines of `s`, each trimmed.
pub fn trimmed_lines(s: &str) -> (r: Vec<String>)
    ensures
        ids_of(r@) == split_lines(s@).map_values(|l: Seq<char>| trimmed(l)),
{
    let n = s.unicode_len();
    let mut out: Vec<String> = Vec::new();
    let mut start: usize = 0;
    let mut i: usize = 0;
    while i < n
        invariant
            n == s@.len(),
            start <= i <= n,
            split_lines(s@.subrange(0, i as int)).len() == out@.len() + 1,
            split_lines(s@.subrange(0, i as int)).last() == s@.subrange(start as int, i as int),
            forall|k: int|
                0 <= k < out@.len() ==> out@[k]@ == trimmed(
                    #[trigger] split_lines(s@.subrange(0, i as int))[k],
                ),
        decreases n - i,
    {
        let ghost pre = split_lines(s@.subrange(0, i as int));
        assert(s@.subrange(0, i + 1).drop_last() =~= s@.subrange(0, i as int));
        proof {
            lemma_split_lines_nonempty(s@.subrange(0, i as int));
        }
        if s.get_char(i) == '\n' {
            let line = trim(s.substring_char(start, i));
            out.push(line);
            start = i + 1;
            assert(s@.subrange(start as int, i + 1) =~= Seq::<char>::empty());
        } else {
            assert(s@.subrange(start as int, i + 1) =~= s@.subrange(start as int, i as int).push(
                s@[i as int],
            ));
        }
        i = i + 1;
    }
    let last = trim(s.substring_char(start, n));
    out.push(last);
    assert(s@.subrange(0, n as int) =~= s@);
    assert(ids_of(out@) =~= split_lines(s@).map_values(|l: Seq<char>| trimmed(l)));
    out
}

} // verus!
