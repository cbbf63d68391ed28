//! Text as the extraction reads it, without the whitespace around it, and
//! text as the table shows it, without escape characters.

use vstd::prelude::*;
use vstd::string::*;

verus! {

/// Whether `c` counts as whitespace. These are the characters to which
/// Unicode gives the property White_Space: tab to carriage return, the
/// space, next line, the no-break space, and the spaces and separators from
/// U+1680 up to the ideographic space.
pub open spec fn white_space(c: char) -> bool {
    let n = c as u32;
    ||| 0x09 <= n <= 0x0d
    ||| n == 0x20
    ||| n == 0x85
    ||| n == 0xa0
    ||| n == 0x1680
    ||| 0x2000 <= n <= 0x200a
    ||| n == 0x2028
    ||| n == 0x2029
    ||| n == 0x202f
    ||| n == 0x205f
    ||| n == 0x3000
}

/// `s` without the whitespace at its start.
pub open spec fn trimmed_start(s: Seq<char>) -> Seq<char>
    decreases s.len(),
{
    if s.len() > 0 && white_space(s.first()) {
        trimmed_start(s.drop_first())
    } else {
        s
    }
}

/// `s` without the whitespace at its end.
pub open spec fn trimmed_end(s: Seq<char>) -> Seq<char>
    decreases s.len(),
{
    if s.len() > 0 && white_space(s.last()) {
        trimmed_end(s.drop_last())
    } else {
        s
    }
}

/// `s` without the whitespace at its start and at its end.
pub open spec fn trimmed(s: Seq<char>) -> Seq<char> {
    trimmed_end(trimmed_start(s))
}

/// An optional text without the whitespace around it.
pub open spec fn trimmed_text(text: Option<Seq<char>>) -> Option<Seq<char>> {
    match text {
        Some(s) => Some(trimmed(s)),
        None => None,
    }
}

/// Where all of `s` before `from` is whitespace and what stands at `from`
/// is not, `trimmed_start` cuts `s` at `from`.
pub proof fn lemma_trimmed_start_cuts(s: Seq<char>, from: int)
    requires
        0 <= from <= s.len(),
        forall|k: int| 0 <= k < from ==> white_space(#[trigger] s[k]),
        from < s.len() ==> !white_space(s[from]),
    ensures
        trimmed_start(s) == s.skip(from),
    decreases from,
{
    if from == 0 {
        assert(s.skip(0) =~= s);
    } else {
        let rest = s.drop_first();
        assert forall|k: int| 0 <= k < from - 1 implies white_space(#[trigger] rest[k]) by {
            assert(rest[k] == s[k + 1]);
        }
        lemma_trimmed_start_cuts(rest, from - 1);
        assert(rest.skip(from - 1) =~= s.skip(from));
    }
}

/// Where all of `s` from `to` on is whitespace and what stands before `to`
/// is not, `trimmed_end` cuts `s` at `to`.
pub proof fn lemma_trimmed_end_cuts(s: Seq<char>, to: int)
    requires
        0 <= to <= s.len(),
        forall|k: int| to <= k < s.len() ==> white_space(#[trigger] s[k]),
        to > 0 ==> !white_space(s[to - 1]),
    ensures
        trimmed_end(s) == s.take(to),
    decreases s.len() - to,
{
    if to == s.len() {
        assert(s.take(to) =~= s);
    } else {
        let rest = s.drop_last();
        lemma_trimmed_end_cuts(rest, to);
        assert(rest.take(to) =~= s.take(to));
    }
}

/// A trimmed text is a stretch of the text it was made from, it has no
/// whitespace at either end, and trimming it again changes nothing.
pub proof fn lemma_trimmed_is_bare(s: Seq<char>) -> (bounds: (int, int))
    ensures
        0 <= bounds.0 <= bounds.1 <= s.len(),
        trimmed(s) == s.subrange(bounds.0, bounds.1),
        trimmed(s).len() > 0 ==> !white_space(trimmed(s).first()) && !white_space(
            trimmed(s).last(),
        ),
        trimmed(trimmed(s)) == trimmed(s),
{
    let from = first_bare(s, 0);
    lemma_first_bare(s, 0);
    lemma_trimmed_start_cuts(s, from);
    let tail = s.skip(from);
    let to = last_bare(tail, tail.len() as int);
    lemma_last_bare(tail, tail.len() as int);
    lemma_trimmed_end_cuts(tail, to);
    let t = trimmed(s);
    assert(t =~= s.subrange(from, from + to));
    if t.len() > 0 {
        assert(t.first() == tail[0]);
        assert(t.last() == tail[to - 1]);
        lemma_trimmed_start_cuts(t, 0);
        assert(t.skip(0) =~= t);
        lemma_trimmed_end_cuts(t, t.len() as int);
        assert(t.take(t.len() as int) =~= t);
    }
    (from, from + to)
}

/// The first place at or after `from` where `s` holds no whitespace, or the
/// length of `s` where there is none.
pub open spec fn first_bare(s: Seq<char>, from: int) -> int
    decreases s.len() - from,
{
    if 0 <= from < s.len() && white_space(s[from]) {
        first_bare(s, from + 1)
    } else {
        from
    }
}

/// The end of the last stretch before `to` in which `s` holds no whitespace,
/// or 0 where there is none.
pub open spec fn last_bare(s: Seq<char>, to: int) -> int
    decreases to,
{
    if 0 < to <= s.len() && white_space(s[to - 1]) {
        last_bare(s, to - 1)
    } else {
        to
    }
}

/// Between `from` and `first_bare(s, from)` all is whitespace, and what
/// stands at `first_bare(s, from)` is not.
pub proof fn lemma_first_bare(s: Seq<char>, from: int)
    requires
        0 <= from <= s.len(),
    ensures
        from <= first_bare(s, from) <= s.len(),
        forall|k: int| from <= k < first_bare(s, from) ==> white_space(#[trigger] s[k]),
        first_bare(s, from) < s.len() ==> !white_space(s[first_bare(s, from)]),
    decreases s.len() - from,
{
    if from < s.len() && white_space(s[from]) {
        lemma_first_bare(s, from + 1);
    }
}

/// Between `last_bare(s, to)` and `to` all is whitespace, and what stands
/// just before `last_bare(s, to)` is not.
pub proof fn lemma_last_bare(s: Seq<char>, to: int)
    requires
        0 <= to <= s.len(),
    ensures
        0 <= last_bare(s, to) <= to,
        forall|k: int| last_bare(s, to) <= k < to ==> white_space(#[trigger] s[k]),
        last_bare(s, to) > 0 ==> !white_space(s[last_bare(s, to) - 1]),
    decreases to,
{
    if to > 0 && white_space(s[to - 1]) {
        lemma_last_bare(s, to - 1);
    }
}

/// Tells whether `c` counts as whitespace.
pub fn is_white_space(c: char) -> (r: bool)
    ensures
        r == white_space(c),
{
    let n: u32 = c as u32;
    (0x09 <= n && n <= 0x0d) || n == 0x20 || n == 0x85 || n == 0xa0 || n == 0x1680 || (0x2000 <= n
        && n <= 0x200a) || n == 0x2028 || n == 0x2029 || n == 0x202f || n == 0x205f || n == 0x3000
}

/// Copies `text` without the whitespace around it.
pub fn trim_text(text: &str) -> (bare: String)
    ensures
        bare@ == trimmed(text@),
{
    let len = text.unicode_len();
    let mut start: usize = len;
    let mut end: usize = 0;
    let mut i: usize = 0;
    for c in it: text.chars()
        invariant
            i == it.index(),
            it.seq() == text@,
            len == text@.len(),
            i <= len,
            start == len || start < i,
            start == len ==> end == 0 && forall|k: int| 0 <= k < i ==> white_space(
                #[trigger] text@[k],
            ),
            start < len ==> start < end <= i && !white_space(text@[start as int]) && !white_space(
                text@[end - 1],
            ),
            forall|k: int| 0 <= k < start && k < i ==> white_space(#[trigger] text@[k]),
            forall|k: int| end <= k < i ==> white_space(#[trigger] text@[k]),
    {
        assert(it.seq()[i as int] == c);
        if !is_white_space(c) {
            if start == len {
                start = i;
            }
            end = i + 1;
        }
        i += 1;
    }
    if start == len {
        proof {
            lemma_trimmed_start_cuts(text@, len as int);
            assert(text@.skip(len as int) =~= Seq::<char>::empty());
        }
        String::new()
    } else {
        proof {
            lemma_trimmed_start_cuts(text@, start as int);
            lemma_trimmed_end_cuts(text@.skip(start as int), end - start);
            assert(text@.skip(start as int).take(end - start) =~= text@.subrange(
                start as int,
                end as int,
            ));
        }
        String::from_str(text.substring_char(start, end))
    }
}

/// The character that opens a terminal's control sequence.
pub const ESCAPE: char = '\u{1b}';

/// `s` without its escape characters; what else it holds stays in its order.
pub open spec fn without_escapes(s: Seq<char>) -> Seq<char>
    decreases s.len(),
{
    if s.len() == 0 {
        Seq::empty()
    } else if s.last() == ESCAPE {
        without_escapes(s.drop_last())
    } else {
        without_escapes(s.drop_last()).push(s.last())
    }
}

/// A cleaned text holds no escape character, and a text that holds none is
/// left as it is.
pub proof fn lemma_without_escapes(s: Seq<char>)
    ensures
        !without_escapes(s).contains(ESCAPE),
        without_escapes(s).len() <= s.len(),
        !s.contains(ESCAPE) ==> without_escapes(s) == s,
    decreases s.len(),
{
    if s.len() > 0 {
        let front = s.drop_last();
        lemma_without_escapes(front);
        let cleaned = without_escapes(s);
        assert forall|i: int| 0 <= i < cleaned.len() implies cleaned[i] != ESCAPE by {
            if i < without_escapes(front).len() {
                assert(without_escapes(front).contains(without_escapes(front)[i]));
            }
        }
        if !s.contains(ESCAPE) {
            assert(s.last() == s[s.len() - 1]);
            assert forall|i: int| 0 <= i < front.len() implies front[i] != ESCAPE by {
                assert(front[i] == s[i]);
            }
            assert(cleaned =~= s);
        }
    } else {
        assert(without_escapes(s) =~= s);
    }
}

/// `String::push`: the character is appended and what stood before it stays.
pub assume_specification[ String::push ](text: &mut String, ch: char)
    ensures
        final(text)@ == old(text)@.push(ch),
;

/// Copies `text` without its escape characters.
pub fn strip_escapes(text: &str) -> (clean: String)
    ensures
        clean@ == without_escapes(text@),
        !clean@.contains(ESCAPE),
{
    let mut clean = String::new();
    assert(text@.take(0) =~= Seq::<char>::empty());
    for c in it: text.chars()
        invariant
            it.seq() == text@,
            clean@ == without_escapes(text@.take(it.index() as int)),
    {
        assert(text@.take(it.index() + 1).drop_last() =~= text@.take(it.index() as int));
        assert(text@.take(it.index() + 1).last() == c);
        if c != ESCAPE {
            clean.push(c);
        }
    }
    assert(text@.take(text@.len() as int) =~= text@);
    proof {
        lemma_without_escapes(text@);
    }
    clean
}

/// Copies an optional text without the whitespace around it.
pub fn trim_found(text: &Option<String>) -> (bare: Option<String>)
    ensures
        bare.deep_view() == trimmed_text(text.deep_view()),
{
    match text {
        Some(s) => Some(trim_text(s.as_str())),
        None => None,
    }
}

} // verus!
