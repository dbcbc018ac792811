//! Text primitives over the characters of a string.
//!
//! The specification functions work on `Seq<char>`, the view of a string; the
//! executable functions return what they say, borrowed from their argument
//! where that is possible.

use vstd::prelude::*;

verus! {

// ---------------------------------------------------------------------------
// Runs of characters
// ---------------------------------------------------------------------------

/// How many characters at the front of `s` satisfy `p`.
pub open spec fn span(s: Seq<char>, p: spec_fn(char) -> bool) -> nat
    decreases s.len(),
{
    if s.len() > 0 && p(s[0]) {
        1 + span(s.drop_first(), p)
    } else {
        0
    }
}

/// A prefix all of whose characters satisfy `p`, and which cannot be extended,
/// is the run that `span` measures.
pub proof fn lemma_span(s: Seq<char>, p: spec_fn(char) -> bool, n: nat)
    requires
        n <= s.len(),
        forall|i: int| 0 <= i < n ==> #[trigger] p(s[i]),
        n < s.len() ==> !p(s[n as int]),
    ensures
        span(s, p) == n,
    decreases n,
{
    if n > 0 {
        let t = s.drop_first();
        assert(p(s[0]));
        assert forall|i: int| 0 <= i < n - 1 implies #[trigger] p(t[i]) by {
            assert(p(s[i + 1]));
        }
        lemma_span(t, p, (n - 1) as nat);
    }
}

/// The run that `span` measures fits in `s`, consists of characters that
/// satisfy `p`, and ends before one that does not.
pub proof fn lemma_span_bounds(s: Seq<char>, p: spec_fn(char) -> bool)
    ensures
        span(s, p) <= s.len(),
        forall|i: int| 0 <= i < span(s, p) ==> #[trigger] p(s[i]),
        span(s, p) < s.len() ==> !p(s[span(s, p) as int]),
    decreases s.len(),
{
    if s.len() > 0 && p(s[0]) {
        let t = s.drop_first();
        lemma_span_bounds(t, p);
        assert forall|i: int| 0 <= i < span(s, p) implies #[trigger] p(s[i]) by {
            if i > 0 {
                assert(p(t[i - 1]));
            }
        }
    }
}

/// The characters of `s`.
pub fn chars_of(s: &str) -> (chars: Vec<char>)
    ensures
        chars@ == s@,
{
    let mut chars: Vec<char> = Vec::new();
    for c in it: s.chars()
        invariant
            it.seq() == s@,
            chars@ == s@.take(it.index() as int),
    {
        chars.push(c);
    }
    assert(s@.take(s@.len() as int) == s@);
    chars
}

// ---------------------------------------------------------------------------
// White space
// ---------------------------------------------------------------------------

/// Whether `c` has the Unicode property `White_Space`.
pub open spec fn white_space(c: char) -> bool {
    ||| '\t' <= c <= '\r'
    ||| c == ' '
    ||| c == '\u{85}'
    ||| c == '\u{a0}'
    ||| c == '\u{1680}'
    ||| '\u{2000}' <= c <= '\u{200a}'
    ||| c == '\u{2028}'
    ||| c == '\u{2029}'
    ||| c == '\u{202f}'
    ||| c == '\u{205f}'
    ||| c == '\u{3000}'
}

/// `white_space`, as a predicate for `span`.
pub open spec fn is_space() -> spec_fn(char) -> bool {
    |c: char| white_space(c)
}

/// The complement of `white_space`, as a predicate for `span`.
pub open spec fn is_ink() -> spec_fn(char) -> bool {
    |c: char| !white_space(c)
}

/// Whether `c` is a white space character.
pub fn is_white_space(c: char) -> (r: bool)
    ensures
        r == white_space(c),
{
    ('\t' <= c && c <= '\r') || c == ' ' || c == '\u{85}' || c == '\u{a0}' || c == '\u{1680}' || (
    '\u{2000}' <= c && c <= '\u{200a}') || c == '\u{2028}' || c == '\u{2029}' || c == '\u{202f}'
        || c == '\u{205f}' || c == '\u{3000}'
}

/// `s` without the white space at its front.
pub open spec fn trim_front(s: Seq<char>) -> Seq<char> {
    s.skip(span(s, is_space()) as int)
}

/// `s` without the white space at its back.
pub open spec fn trim_back(s: Seq<char>) -> Seq<char>
    decreases s.len(),
{
    if s.len() > 0 && white_space(s.last()) {
        trim_back(s.drop_last())
    } else {
        s
    }
}

/// `s` without the white space at either end.
pub open spec fn trimmed(s: Seq<char>) -> Seq<char> {
    trim_back(trim_front(s))
}

/// The end of the run that starts at `from`: of white space where `space` holds,
/// of other characters where it does not.
fn skip_run(chars: &[char], from: usize, space: bool) -> (end: usize)
    requires
        from <= chars@.len(),
    ensures
        from <= end <= chars@.len(),
        space ==> end - from == span(chars@.skip(from as int), is_space()),
        !space ==> end - from == span(chars@.skip(from as int), is_ink()),
{
    let mut end: usize = from;
    while end < chars.len() && is_white_space(chars[end]) == space
        invariant
            from <= end <= chars@.len(),
            forall|i: int| from <= i < end ==> white_space(#[trigger] chars@[i]) == space,
        decreases chars@.len() - end,
    {
        end += 1;
    }
    proof {
        let rest = chars@.skip(from as int);
        if space {
            lemma_span(rest, is_space(), (end - from) as nat);
        } else {
            lemma_span(rest, is_ink(), (end - from) as nat);
        }
    }
    end
}

/// `text` without the white space at either end.
pub fn trim(text: &str) -> (r: &str)
    ensures
        r@ == trimmed(text@),
{
    let chars: Vec<char> = chars_of(text);
    let start: usize = skip_run(chars.as_slice(), 0, true);
    let mut end: usize = chars.len();
    assert(chars@.skip(0) == chars@);
    assert(chars@.subrange(start as int, end as int) == trim_front(text@));
    while end > start && is_white_space(chars[end - 1])
        invariant
            start <= end <= chars@.len(),
            trim_back(chars@.subrange(start as int, end as int)) == trimmed(text@),
        decreases end,
    {
        assert(chars@.subrange(start as int, end as int).drop_last() == chars@.subrange(
            start as int,
            end - 1,
        ));
        end -= 1;
    }
    text.substring_char(start, end)
}

// ---------------------------------------------------------------------------
// Words
// ---------------------------------------------------------------------------

/// The maximal runs of characters other than white space in `s`, in order.
pub open spec fn words_of(s: Seq<char>) -> Seq<Seq<char>>
    decreases s.len(),
{
    let t = trim_front(s);
    let n = span(t, is_ink());
    if n == 0 {
        seq![]
    } else {
        proof {
            lemma_span_bounds(s, is_space());
            lemma_span_bounds(t, is_ink());
        }
        seq![t.take(n as int)] + words_of(t.skip(n as int))
    }
}

/// The views of a sequence of string slices.
pub open spec fn strs(v: Seq<&str>) -> Seq<Seq<char>> {
    Seq::new(v.len(), |i: int| v[i]@)
}

/// The views of a sequence of strings.
pub open spec fn texts(v: Seq<String>) -> Seq<Seq<char>> {
    Seq::new(v.len(), |i: int| v[i]@)
}

/// The words of `text`.
pub fn split_whitespace(text: &str) -> (r: Vec<&str>)
    ensures
        strs(r@) == words_of(text@),
{
    let chars: Vec<char> = chars_of(text);
    let mut words: Vec<&str> = Vec::new();
    let mut start: usize = skip_run(chars.as_slice(), 0, true);
    proof {
        assert(chars@.skip(0) == chars@);
        lemma_span_bounds(chars@, is_space());
        lemma_words_after_space(chars@, start as int);
    }
    while start < chars.len()
        invariant
            start <= chars@.len(),
            start < chars@.len() ==> !white_space(chars@[start as int]),
            chars@ == text@,
            strs(words@) + words_of(chars@.skip(start as int)) == words_of(text@),
        decreases chars@.len() - start,
    {
        let end: usize = skip_run(chars.as_slice(), start, false);
        let next: usize = skip_run(chars.as_slice(), end, true);
        let word: &str = text.substring_char(start, end);
        let ghost before = words@;
        words.push(word);
        proof {
            let rest = chars@.skip(start as int);
            assert(rest[0] == chars@[start as int]);
            assert(rest.skip(0) == rest);
            lemma_span(rest, is_space(), 0);
            assert(trim_front(rest) == rest);
            lemma_span_bounds(rest, is_ink());
            assert(span(rest, is_ink()) == end - start);
            assert(span(rest, is_ink()) > 0) by {
                assert(is_ink()(rest[0]));
            }
            assert(rest.take(end - start) == word@);
            assert(rest.skip(end - start) == chars@.skip(end as int));
            let tail = chars@.skip(end as int);
            lemma_span_bounds(tail, is_space());
            lemma_words_after_space(tail, next - end);
            assert(tail.skip(next - end) == chars@.skip(next as int));
            assert(next < chars@.len() ==> !white_space(chars@[next as int])) by {
                if next < chars@.len() {
                    assert(tail[next - end] == chars@[next as int]);
                }
            }
            assert(strs(words@) == strs(before) + seq![word@]);
            assert(strs(words@) + words_of(chars@.skip(next as int)) == strs(before) + (seq![word@]
                + words_of(chars@.skip(next as int))));
        }
        start = next;
    }
    proof {
        let rest = chars@.skip(start as int);
        lemma_span_bounds(rest, is_space());
        assert(words_of(rest) =~= seq![]);
    }
    words
}

/// White space in front of a text adds no word.
proof fn lemma_words_after_space(s: Seq<char>, n: int)
    requires
        n == span(s, is_space()),
    ensures
        0 <= n <= s.len(),
        words_of(s.skip(n)) == words_of(s),
{
    lemma_span_bounds(s, is_space());
    let t = s.skip(n);
    lemma_span_bounds(t, is_ink());
    if t.len() > 0 {
        assert(t[0] == s[n]);
    }
    lemma_span(t, is_space(), 0);
    assert(t.skip(0) == t);
    assert(trim_front(t) == t);
    assert(trim_front(s) == t);
}

/// A text without white space is one word.
pub proof fn lemma_one_word(s: Seq<char>)
    requires
        s.len() > 0,
        forall|i: int| 0 <= i < s.len() ==> !white_space(#[trigger] s[i]),
    ensures
        words_of(s) == seq![s],
{
    lemma_span(s, is_space(), 0);
    assert(s.skip(0) == s);
    lemma_span(s, is_ink(), s.len());
    assert(s.take(s.len() as int) == s);
    let rest = s.skip(s.len() as int);
    lemma_span_bounds(rest, is_space());
    assert(words_of(rest) =~= seq![]);
}

/// Words are not empty and hold no white space.
pub proof fn law_words_are_ink(s: Seq<char>)
    ensures
        forall|k: int|
            #![trigger words_of(s)[k]]
            0 <= k < words_of(s).len() ==> words_of(s)[k].len() > 0 && forall|i: int|
                0 <= i < words_of(s)[k].len() ==> !white_space(#[trigger] words_of(s)[k][i]),
    decreases s.len(),
{
    let t = trim_front(s);
    let n = span(t, is_ink());
    lemma_span_bounds(s, is_space());
    lemma_span_bounds(t, is_ink());
    if n > 0 {
        let rest = t.skip(n as int);
        law_words_are_ink(rest);
        assert forall|k: int|
            #![trigger words_of(s)[k]]
            0 <= k < words_of(s).len() implies words_of(s)[k].len() > 0 && forall|i: int|
            0 <= i < words_of(s)[k].len() ==> !white_space(#[trigger] words_of(s)[k][i]) by {
            if k == 0 {
                assert(words_of(s)[0] == t.take(n as int));
                assert forall|i: int| 0 <= i < n implies !white_space(
                    #[trigger] t.take(n as int)[i],
                ) by {
                    assert(is_ink()(t[i]));
                }
            } else {
                assert(words_of(s)[k] == words_of(rest)[k - 1]);
            }
        }
    }
}

// ---------------------------------------------------------------------------
// Lines
// ---------------------------------------------------------------------------

/// Everything but the line feed, as a predicate for `span`.
pub open spec fn in_line() -> spec_fn(char) -> bool {
    |c: char| c != '\n'
}

/// `s` without one carriage return at its end.
pub open spec fn strip_return(s: Seq<char>) -> Seq<char> {
    if s.len() > 0 && s.last() == '\r' {
        s.drop_last()
    } else {
        s
    }
}

/// The lines of `s`. A line ends in a line feed or in a carriage return and a
/// line feed, neither of which belongs to it; the last one may end without.
pub open spec fn lines_of(s: Seq<char>) -> Seq<Seq<char>>
    decreases s.len(),
{
    let n = span(s, in_line());
    if s.len() == 0 {
        seq![]
    } else if n == s.len() {
        seq![s]
    } else {
        proof {
            lemma_span_bounds(s, in_line());
        }
        seq![strip_return(s.take(n as int))] + lines_of(s.skip(n as int + 1))
    }
}

/// The lines of `text`.
pub fn lines(text: &str) -> (r: Vec<&str>)
    ensures
        strs(r@) == lines_of(text@),
{
    let chars: Vec<char> = chars_of(text);
    let mut found: Vec<&str> = Vec::new();
    let mut start: usize = 0;
    let mut i: usize = 0;
    assert(chars@.skip(0) == chars@);
    assert(strs(found@) + lines_of(chars@) == lines_of(chars@));
    while i < chars.len()
        invariant
            start <= i <= chars@.len(),
            chars@ == text@,
            forall|j: int| start <= j < i ==> #[trigger] chars@[j] != '\n',
            strs(found@) + lines_of(chars@.skip(start as int)) == lines_of(text@),
        decreases chars@.len() - i,
    {
        if chars[i] == '\n' {
            let end: usize = if i > start && chars[i - 1] == '\r' {
                i - 1
            } else {
                i
            };
            let line: &str = text.substring_char(start, end);
            let ghost before = found@;
            found.push(line);
            proof {
                let rest = chars@.skip(start as int);
                let n = (i - start) as nat;
                assert(rest[n as int] == chars@[i as int]);
                lemma_span(rest, in_line(), n);
                assert(line@ == strip_return(rest.take(n as int)));
                assert(rest.skip(n as int + 1) == chars@.skip(i + 1));
                assert(strs(found@) == strs(before) + seq![line@]);
                assert(strs(found@) + lines_of(chars@.skip(i + 1)) == strs(before) + (seq![line@]
                    + lines_of(chars@.skip(i + 1))));
            }
            start = i + 1;
        }
        i += 1;
    }
    let ghost before = found@;
    let ghost rest = chars@.skip(start as int);
    if start < chars.len() {
        let line: &str = text.substring_char(start, chars.len());
        found.push(line);
        proof {
            lemma_span(rest, in_line(), rest.len());
            assert(line@ == rest);
            assert(strs(found@) == strs(before) + seq![line@]);
        }
    } else {
        assert(strs(before) + lines_of(rest) == strs(before));
    }
    found
}

/// Lines hold no line feed.
pub proof fn law_lines_hold_no_line_feed(text: Seq<char>)
    ensures
        forall|k: int, i: int|
            0 <= k < lines_of(text).len() && 0 <= i < lines_of(text)[k].len()
                ==> #[trigger] lines_of(text)[k][i] != '\n',
    decreases text.len(),
{
    let n = span(text, in_line());
    lemma_span_bounds(text, in_line());
    assert forall|i: int| 0 <= i < n implies #[trigger] text[i] != '\n' by {
        assert(in_line()(text[i]));
    }
    if text.len() > 0 && n < text.len() {
        let rest = text.skip(n as int + 1);
        law_lines_hold_no_line_feed(rest);
        assert forall|k: int, i: int|
            0 <= k < lines_of(text).len() && 0 <= i < lines_of(text)[k].len() implies #[trigger] lines_of(
            text,
        )[k][i] != '\n' by {
            if k > 0 {
                assert(lines_of(text)[k] == lines_of(rest)[k - 1]);
            }
        }
    }
}

// ---------------------------------------------------------------------------
// Occurrences of one text in another
// ---------------------------------------------------------------------------

/// Whether `needle` stands in `hay` at index `at`.
pub open spec fn occurs_at(hay: Seq<char>, needle: Seq<char>, at: int) -> bool {
    0 <= at && at + needle.len() <= hay.len() && hay.subrange(at, at + needle.len()) == needle
}

/// Whether `needle` stands somewhere in `hay`.
pub open spec fn occurs(hay: Seq<char>, needle: Seq<char>) -> bool {
    exists|at: int| occurs_at(hay, needle, at)
}

/// What follows the first occurrence of `needle` in `hay`.
pub open spec fn after_first(hay: Seq<char>, needle: Seq<char>) -> Option<Seq<char>>
    decreases hay.len(),
{
    if needle.is_prefix_of(hay) {
        Some(hay.skip(needle.len() as int))
    } else if hay.len() == 0 {
        None
    } else {
        after_first(hay.drop_first(), needle)
    }
}

/// `hay` without `prefix` at its front, where it has it.
pub open spec fn without_prefix(hay: Seq<char>, prefix: Seq<char>) -> Option<Seq<char>> {
    if prefix.is_prefix_of(hay) {
        Some(hay.skip(prefix.len() as int))
    } else {
        None
    }
}

/// Whether `needle` stands in `hay` at index `at`.
fn stands_at(hay: &[char], needle: &[char], at: usize) -> (r: bool)
    requires
        at <= hay@.len(),
    ensures
        r == occurs_at(hay@, needle@, at as int),
        r == needle@.is_prefix_of(hay@.skip(at as int)),
{
    let ghost rest = hay@.skip(at as int);
    if needle.len() > hay.len() - at {
        return false;
    }
    let mut i: usize = 0;
    while i < needle.len()
        invariant
            i <= needle@.len() <= hay@.len() - at,
            at <= hay@.len(),
            rest == hay@.skip(at as int),
            hay@.len() == hay.len(),
            forall|j: int| 0 <= j < i ==> #[trigger] needle@[j] == hay@[at + j],
        decreases needle@.len() - i,
    {
        if needle[i] != hay[at + i] {
            assert(hay@.subrange(at as int, at + needle@.len())[i as int] != needle@[i as int]);
            assert(rest[i as int] != needle@[i as int]);
            return false;
        }
        i += 1;
    }
    assert(hay@.subrange(at as int, at + needle@.len()) =~= needle@);
    assert(needle@.is_prefix_of(rest)) by {
        assert(rest.subrange(0, needle@.len() as int) =~= needle@);
    }
    true
}

/// Whether the two texts have the same characters.
pub fn same(a: &str, b: &str) -> (r: bool)
    ensures
        r == (a@ == b@),
{
    let x: Vec<char> = chars_of(a);
    let y: Vec<char> = chars_of(b);
    let r: bool = x.len() == y.len() && stands_at(x.as_slice(), y.as_slice(), 0);
    assert(x@.subrange(0, x@.len() as int) == x@);
    r
}

/// Whether `text` begins with `prefix`.
pub fn starts_with(text: &str, prefix: &str) -> (r: bool)
    ensures
        r == prefix@.is_prefix_of(text@),
{
    let hay: Vec<char> = chars_of(text);
    let needle: Vec<char> = chars_of(prefix);
    assert(hay@.skip(0) == hay@);
    stands_at(hay.as_slice(), needle.as_slice(), 0)
}

/// `text` without `prefix` at its front, where it has it.
pub fn strip_prefix<'a>(text: &'a str, prefix: &str) -> (r: Option<&'a str>)
    ensures
        match r {
            Some(rest) => without_prefix(text@, prefix@) == Some(rest@),
            None => without_prefix(text@, prefix@) is None,
        },
{
    let hay: Vec<char> = chars_of(text);
    let needle: Vec<char> = chars_of(prefix);
    assert(hay@.skip(0) == hay@);
    if stands_at(hay.as_slice(), needle.as_slice(), 0) {
        assert(needle@.len() <= hay@.len());
        assert(hay@.subrange(needle@.len() as int, hay@.len() as int) == hay@.skip(
            needle@.len() as int,
        ));
        Some(text.substring_char(needle.len(), hay.len()))
    } else {
        None
    }
}

/// Where `needle` first stands in `hay`.
fn first_index(hay: &[char], needle: &[char]) -> (r: Option<usize>)
    ensures
        match r {
            Some(at) => {
                &&& occurs_at(hay@, needle@, at as int)
                &&& after_first(hay@, needle@) == Some(hay@.skip(at + needle@.len()))
            },
            None => !occurs(hay@, needle@) && after_first(hay@, needle@) is None,
        },
{
    let mut at: usize = 0;
    assert(hay@.skip(0) == hay@);
    loop
        invariant
            at <= hay@.len(),
            forall|i: int| 0 <= i < at ==> !occurs_at(hay@, needle@, i),
            after_first(hay@, needle@) == after_first(hay@.skip(at as int), needle@),
        decreases hay@.len() - at,
    {
        let ghost rest = hay@.skip(at as int);
        if stands_at(hay, needle, at) {
            assert(rest.skip(needle@.len() as int) == hay@.skip(at + needle@.len()));
            return Some(at);
        }
        if at == hay.len() {
            return None;
        }
        assert(rest.drop_first() == hay@.skip(at + 1));
        at += 1;
    }
}

/// Whether `needle` stands somewhere in `text`.
pub fn contains(text: &str, needle: &str) -> (r: bool)
    ensures
        r == occurs(text@, needle@),
{
    let hay: Vec<char> = chars_of(text);
    let sought: Vec<char> = chars_of(needle);
    first_index(hay.as_slice(), sought.as_slice()).is_some()
}

/// What follows the first occurrence of `needle` in `text`.
pub fn rest_after<'a>(text: &'a str, needle: &str) -> (r: Option<&'a str>)
    ensures
        match r {
            Some(rest) => after_first(text@, needle@) == Some(rest@),
            None => after_first(text@, needle@) is None,
        },
{
    let hay: Vec<char> = chars_of(text);
    let sought: Vec<char> = chars_of(needle);
    match first_index(hay.as_slice(), sought.as_slice()) {
        Some(at) => {
            let total: usize = hay.len();
            let from: usize = at + sought.len();
            assert(hay@.subrange(from as int, total as int) == hay@.skip(from as int));
            Some(text.substring_char(from, total))
        },
        None => None,
    }
}

/// What follows the first occurrence, by its position.
pub proof fn lemma_after_first_at(hay: Seq<char>, needle: Seq<char>, at: int)
    requires
        occurs_at(hay, needle, at),
        forall|i: int| 0 <= i < at ==> !occurs_at(hay, needle, i),
    ensures
        after_first(hay, needle) == Some(hay.skip(at + needle.len())),
    decreases at,
{
    if at == 0 {
        assert(needle.is_prefix_of(hay));
    } else {
        let rest = hay.drop_first();
        assert(!occurs_at(hay, needle, 0));
        assert(!needle.is_prefix_of(hay)) by {
            if needle.is_prefix_of(hay) {
                assert(hay.subrange(0, needle.len() as int) =~= needle);
            }
        }
        assert(rest.subrange(at - 1, at - 1 + needle.len()) =~= hay.subrange(
            at,
            at + needle.len(),
        ));
        assert forall|i: int| 0 <= i < at - 1 implies !occurs_at(rest, needle, i) by {
            assert(!occurs_at(hay, needle, i + 1));
            if occurs_at(rest, needle, i) {
                assert(hay.subrange(i + 1, i + 1 + needle.len()) =~= rest.subrange(
                    i,
                    i + needle.len(),
                ));
            }
        }
        lemma_after_first_at(rest, needle, at - 1);
        assert(rest.skip(at - 1 + needle.len()) =~= hay.skip(at + needle.len()));
    }
}

// ---------------------------------------------------------------------------
// ASCII case
// ---------------------------------------------------------------------------

/// `c`, with the letters `A` to `Z` mapped to `a` to `z`.
pub open spec fn ascii_lower(c: char) -> char {
    if 'A' <= c <= 'Z' {
        (c as u32 + 32) as char
    } else {
        c
    }
}

/// Whether `a` and `b` are equal up to the case of ASCII letters.
pub open spec fn same_ignoring_ascii_case(a: Seq<char>, b: Seq<char>) -> bool {
    &&& a.len() == b.len()
    &&& forall|i: int| 0 <= i < a.len() ==> ascii_lower(#[trigger] a[i]) == ascii_lower(b[i])
}

/// The ASCII lower case of `c`, as a code point.
fn lower_code(c: char) -> (r: u32)
    ensures
        r == ascii_lower(c) as u32,
{
    if 'A' <= c && c <= 'Z' {
        c as u32 + 32
    } else {
        c as u32
    }
}

/// Whether the two texts are equal up to the case of ASCII letters.
pub fn eq_ignore_ascii_case(a: &str, b: &str) -> (r: bool)
    ensures
        r == same_ignoring_ascii_case(a@, b@),
{
    let x: Vec<char> = chars_of(a);
    let y: Vec<char> = chars_of(b);
    if x.len() != y.len() {
        return false;
    }
    let mut i: usize = 0;
    while i < x.len()
        invariant
            i <= x@.len(),
            x@.len() == y@.len(),
            x@ == a@,
            y@ == b@,
            forall|j: int| 0 <= j < i ==> ascii_lower(#[trigger] x@[j]) == ascii_lower(y@[j]),
        decreases x@.len() - i,
    {
        if lower_code(x[i]) != lower_code(y[i]) {
            assert(ascii_lower(a@[i as int]) != ascii_lower(b@[i as int]));
            return false;
        }
        i += 1;
    }
    true
}

/// Whether `c` is one of `0` to `9`, `a` to `f` and `A` to `F`.
pub open spec fn hex_digit(c: char) -> bool {
    '0' <= c <= '9' || 'a' <= c <= 'f' || 'A' <= c <= 'F'
}

/// Whether `c` is an ASCII hexadecimal digit.
pub fn is_ascii_hexdigit(c: char) -> (r: bool)
    ensures
        r == hex_digit(c),
{
    ('0' <= c && c <= '9') || ('a' <= c && c <= 'f') || ('A' <= c && c <= 'F')
}

// ---------------------------------------------------------------------------
// Joining
// ---------------------------------------------------------------------------

/// The elements of `parts`, with `separator` between each two neighbours.
pub open spec fn joined(parts: Seq<Seq<char>>, separator: Seq<char>) -> Seq<char>
    decreases parts.len(),
{
    if parts.len() == 0 {
        seq![]
    } else if parts.len() == 1 {
        parts[0]
    } else {
        joined(parts.drop_last(), separator) + separator + parts.last()
    }
}

/// The strings of `parts`, with `separator` between each two neighbours.
pub fn join(parts: &Vec<String>, separator: &str) -> (r: String)
    ensures
        r@ == joined(texts(parts@), separator@),
{
    let mut text: String = String::new();
    let mut i: usize = 0;
    assert(texts(parts@).take(0) =~= seq![]);
    while i < parts.len()
        invariant
            i <= parts@.len(),
            text@ == joined(texts(parts@).take(i as int), separator@),
        decreases parts@.len() - i,
    {
        proof {
            let next = texts(parts@).take(i + 1);
            assert(next.drop_last() == texts(parts@).take(i as int));
            assert(next.last() == parts@[i as int]@);
            if i == 0 {
                assert(Seq::<char>::empty() + next[0] == next[0]);
            }
        }
        if i > 0 {
            text.append(separator);
        }
        text.append(parts[i].as_str());
        i += 1;
    }
    assert(texts(parts@).take(i as int) == texts(parts@));
    text
}

/// `front` followed by `back`.
pub fn chain(front: &str, back: &str) -> (r: String)
    ensures
        r@ == front@ + back@,
{
    let mut text: String = front.to_owned();
    text.append(back);
    text
}

// ---------------------------------------------------------------------------
// Text from bytes
// ---------------------------------------------------------------------------

/// The text that `String::from_utf8_lossy` makes of `bytes`.
pub uninterp spec fn lossy_text(bytes: Seq<u8>) -> Seq<char>;

/// `String::from_utf8_lossy`, as an owned string: the text of `bytes` read as
/// UTF-8. Bytes that are valid UTF-8 give the characters they encode; of other
/// bytes nothing is claimed but that the text depends on them alone.
#[verifier::external_body]
pub(crate) fn from_utf8_lossy(bytes: &[u8]) -> (r: String)
    ensures
        r@ == lossy_text(bytes@),
        vstd::utf8::valid_utf8(bytes@) ==> r@ == vstd::utf8::decode_utf8(bytes@),
{
    String::from_utf8_lossy(bytes).into_owned()
}

// ---------------------------------------------------------------------------
// Laws
// ---------------------------------------------------------------------------

/// White space at the back of a text is all that `trim_back` cuts off.
proof fn lemma_trim_back(core: Seq<char>, back: Seq<char>)
    requires
        core.len() > 0 ==> !white_space(core.last()),
        forall|i: int| 0 <= i < back.len() ==> white_space(#[trigger] back[i]),
    ensures
        trim_back(core + back) == core,
    decreases back.len(),
{
    if back.len() == 0 {
        assert(core + back =~= core);
    } else {
        assert((core + back).last() == back[back.len() - 1]);
        assert((core + back).drop_last() =~= core + back.drop_last());
        lemma_trim_back(core, back.drop_last());
    }
}

/// Trimming gives back the core of a text: whatever white space stands in front
/// of it and behind it goes, and the core, which neither begins nor ends in white
/// space, stays as it is.
pub proof fn law_trimming_gives_the_core(front: Seq<char>, core: Seq<char>, back: Seq<char>)
    requires
        forall|i: int| 0 <= i < front.len() ==> white_space(#[trigger] front[i]),
        forall|i: int| 0 <= i < back.len() ==> white_space(#[trigger] back[i]),
        core.len() > 0 ==> !white_space(core[0]) && !white_space(core.last()),
    ensures
        trimmed(front + core + back) == core,
{
    let s = front + core + back;
    if core.len() > 0 {
        assert forall|i: int| 0 <= i < front.len() implies #[trigger] is_space()(s[i]) by {
            assert(s[i] == front[i]);
        }
        assert(s[front.len() as int] == core[0]);
        lemma_span(s, is_space(), front.len());
        assert(trim_front(s) =~= core + back);
    } else {
        assert forall|i: int| 0 <= i < s.len() implies #[trigger] is_space()(s[i]) by {
            if i < front.len() {
                assert(s[i] == front[i]);
            } else {
                assert(s[i] == back[i - front.len()]);
            }
        }
        lemma_span(s, is_space(), s.len());
        assert(trim_front(s) =~= core + Seq::<char>::empty());
    }
    lemma_trim_back(core, back);
    lemma_trim_back(core, Seq::empty());
}

/// A white space character in front of a text adds no word.
proof fn lemma_words_after_one_space(c: char, s: Seq<char>)
    requires
        white_space(c),
    ensures
        words_of(seq![c] + s) == words_of(s),
{
    let whole = seq![c] + s;
    assert(whole.drop_first() =~= s);
    assert(is_space()(whole[0]));
    lemma_span_bounds(s, is_space());
    lemma_span_bounds(whole, is_space());
    assert(trim_front(whole) =~= trim_front(s));
}

/// White space parts a text: the words of two texts with a white space character
/// between them are the words of the one and then the words of the other.
pub proof fn law_white_space_parts_words(a: Seq<char>, c: char, b: Seq<char>)
    requires
        white_space(c),
    ensures
        words_of(a + seq![c] + b) == words_of(a) + words_of(b),
    decreases a.len(),
{
    let s = a + seq![c] + b;
    if a.len() == 0 {
        assert(s =~= seq![c] + b);
        lemma_words_after_one_space(c, b);
        law_no_words();
        assert(a =~= Seq::<char>::empty());
        assert(words_of(a) + words_of(b) =~= words_of(b));
    } else if white_space(a[0]) {
        let rest = a.drop_first();
        assert(a =~= seq![a[0]] + rest);
        assert(s =~= seq![a[0]] + (rest + seq![c] + b));
        lemma_words_after_one_space(a[0], rest);
        lemma_words_after_one_space(a[0], rest + seq![c] + b);
        law_white_space_parts_words(rest, c, b);
    } else {
        let n = span(a, is_ink());
        lemma_span_bounds(a, is_ink());
        assert(is_ink()(a[0]));
        lemma_span(a, is_space(), 0);
        assert(s[0] == a[0]);
        lemma_span(s, is_space(), 0);
        assert(trim_front(a) =~= a);
        assert(trim_front(s) =~= s);
        assert forall|i: int| 0 <= i < n implies #[trigger] is_ink()(s[i]) by {
            assert(is_ink()(a[i]));
        }
        assert(!is_ink()(s[n as int])) by {
            if n < a.len() {
                assert(s[n as int] == a[n as int]);
            } else {
                assert(s[n as int] == c);
            }
        }
        lemma_span(s, is_ink(), n);
        let rest = a.skip(n as int);
        assert(s.take(n as int) =~= a.take(n as int));
        assert(s.skip(n as int) =~= rest + seq![c] + b);
        law_white_space_parts_words(rest, c, b);
        assert(words_of(s) == seq![a.take(n as int)] + words_of(s.skip(n as int)));
        assert(words_of(a) == seq![a.take(n as int)] + words_of(rest));
        assert(words_of(s) =~= words_of(a) + words_of(b));
    }
}

/// A text of nothing holds no word.
pub proof fn law_no_words()
    ensures
        words_of(Seq::<char>::empty()).len() == 0,
{
    let s = Seq::<char>::empty();
    lemma_span_bounds(s, is_space());
    lemma_span_bounds(trim_front(s), is_ink());
}

/// A text without white space is one word.
pub proof fn law_ink_is_one_word(s: Seq<char>)
    requires
        s.len() > 0,
        forall|i: int| 0 <= i < s.len() ==> !white_space(#[trigger] s[i]),
    ensures
        words_of(s) == seq![s],
{
    lemma_one_word(s);
}

/// A line feed parts a text: the lines of two texts with a line feed between them
/// are the lines of the one, with its line feed, and then those of the other.
pub proof fn law_line_feed_parts_lines(a: Seq<char>, b: Seq<char>)
    ensures
        lines_of(a + seq!['\n'] + b) == lines_of(a + seq!['\n']) + lines_of(b),
    decreases a.len(),
{
    let whole = a + seq!['\n'] + b;
    let first = a + seq!['\n'];
    let n = span(a, in_line());
    lemma_span_bounds(a, in_line());
    assert forall|i: int| 0 <= i < n implies #[trigger] in_line()(whole[i]) && in_line()(
        first[i],
    ) by {
        assert(in_line()(a[i]));
    }
    assert(!in_line()(whole[n as int]) && !in_line()(first[n as int])) by {
        if n < a.len() {
            assert(whole[n as int] == a[n as int] && first[n as int] == a[n as int]);
        } else {
            assert(whole[n as int] == '\n' && first[n as int] == '\n');
        }
    }
    assert forall|i: int| 0 <= i < n implies #[trigger] in_line()(first[i]) by {
        assert(in_line()(whole[i]));
    }
    lemma_span(whole, in_line(), n);
    lemma_span(first, in_line(), n);
    assert(whole.take(n as int) =~= a.take(n as int));
    assert(first.take(n as int) =~= a.take(n as int));
    let line = strip_return(a.take(n as int));
    assert(lines_of(whole) == seq![line] + lines_of(whole.skip(n as int + 1)));
    assert(lines_of(first) == seq![line] + lines_of(first.skip(n as int + 1)));
    if n < a.len() {
        let rest = a.skip(n as int + 1);
        assert(whole.skip(n as int + 1) =~= rest + seq!['\n'] + b);
        assert(first.skip(n as int + 1) =~= rest + seq!['\n']);
        law_line_feed_parts_lines(rest, b);
    } else {
        assert(whole.skip(n as int + 1) =~= b);
        assert(first.skip(n as int + 1) =~= Seq::<char>::empty());
        assert(lines_of(Seq::<char>::empty()) =~= seq![]);
    }
    assert(lines_of(whole) =~= lines_of(first) + lines_of(b));
}

/// One line is read the same with each of the three ends that it can have: none,
/// a line feed, and a carriage return and a line feed. Where it has none, a
/// carriage return at its end belongs to it.
pub proof fn law_line_ends(line: Seq<char>)
    requires
        forall|i: int| 0 <= i < line.len() ==> #[trigger] line[i] != '\n',
    ensures
        lines_of(line) == if line.len() > 0 {
            seq![line]
        } else {
            seq![]
        },
        !(line.len() > 0 && line.last() == '\r') ==> lines_of(line + seq!['\n']) == seq![line],
        lines_of(line + seq!['\r', '\n']) == seq![line],
{
    assert forall|i: int| 0 <= i < line.len() implies #[trigger] in_line()(line[i]) by {}
    lemma_span(line, in_line(), line.len());
    let none = Seq::<char>::empty();
    assert(lines_of(none) =~= seq![]);
    if line.len() == 0 {
        assert(lines_of(line) =~= seq![]);
    }
    let fed = line + seq!['\n'];
    assert forall|i: int| 0 <= i < line.len() implies #[trigger] in_line()(fed[i]) by {
        assert(in_line()(line[i]));
    }
    assert(fed[line.len() as int] == '\n');
    lemma_span(fed, in_line(), line.len());
    assert(fed.take(line.len() as int) =~= line);
    assert(fed.skip(line.len() as int + 1) =~= none);
    if !(line.len() > 0 && line.last() == '\r') {
        assert(lines_of(fed) =~= seq![line]);
    }
    let returned = line + seq!['\r', '\n'];
    let n = line.len() + 1;
    assert forall|i: int| 0 <= i < n implies #[trigger] in_line()(returned[i]) by {
        if i < line.len() {
            assert(in_line()(line[i]));
        }
    }
    assert(returned[n as int] == '\n');
    lemma_span(returned, in_line(), n);
    assert(returned.take(n as int) =~= line + seq!['\r']);
    assert((line + seq!['\r']).drop_last() =~= line);
    assert(returned.skip(n as int + 1) =~= none);
    assert(lines_of(returned) =~= seq![line]);
}

/// A text occurs in every text that is built around it, and in no other.
pub proof fn law_occurrence(hay: Seq<char>, needle: Seq<char>)
    ensures
        occurs(hay, needle) <==> exists|front: Seq<char>, back: Seq<char>|
            hay == #[trigger] (front + needle + back),
{
    if occurs(hay, needle) {
        let at = choose|at: int| occurs_at(hay, needle, at);
        let front = hay.take(at);
        let back = hay.skip(at + needle.len());
        assert(hay =~= front + needle + back);
    }
    if exists|front: Seq<char>, back: Seq<char>| hay == #[trigger] (front + needle + back) {
        let (front, back) = choose|front: Seq<char>, back: Seq<char>|
            hay == #[trigger] (front + needle + back);
        let at = front.len() as int;
        assert(hay.subrange(at, at + needle.len()) =~= needle);
        assert(occurs_at(hay, needle, at));
    }
}

/// What follows a needle is what stands behind its first occurrence; where it
/// stands nowhere, nothing does.
pub proof fn law_rest_behind_the_first(front: Seq<char>, needle: Seq<char>, back: Seq<char>)
    requires
        forall|i: int|
            0 <= i < front.len() ==> #[trigger] (front + needle + back).subrange(
                i,
                i + needle.len(),
            ) != needle,
    ensures
        after_first(front + needle + back, needle) == Some(back),
{
    let hay = front + needle + back;
    let at = front.len() as int;
    assert(hay.subrange(at, at + needle.len()) =~= needle);
    assert(hay.skip(at + needle.len()) =~= back);
    assert forall|i: int| 0 <= i < at implies !occurs_at(hay, needle, i) by {
        assert(hay.subrange(i, i + needle.len()) != needle);
    }
    lemma_after_first_at(hay, needle, at);
}

/// Nothing follows a needle that stands nowhere.
pub proof fn law_no_rest_without_the_needle(hay: Seq<char>, needle: Seq<char>)
    requires
        forall|i: int|
            0 <= i <= hay.len() - needle.len() ==> #[trigger] hay.subrange(i, i + needle.len())
                != needle,
    ensures
        after_first(hay, needle) is None,
    decreases hay.len(),
{
    if needle.is_prefix_of(hay) {
        assert(hay.subrange(0, 0int + needle.len()) =~= needle);
    } else if hay.len() > 0 {
        let rest = hay.drop_first();
        assert forall|i: int| 0 <= i <= rest.len() - needle.len() implies #[trigger] rest.subrange(
            i,
            i + needle.len(),
        ) != needle by {
            assert(hay.subrange(i + 1, i + 1 + needle.len()) =~= rest.subrange(
                i,
                i + needle.len(),
            ));
        }
        law_no_rest_without_the_needle(rest, needle);
    }
}

/// A prefix that was put in front of a text is taken off again, and nothing else
/// is: what is left, behind the prefix, is the whole text.
pub proof fn law_prefix_is_taken_off(prefix: Seq<char>, rest: Seq<char>, text: Seq<char>)
    ensures
        without_prefix(prefix + rest, prefix) == Some(rest),
        without_prefix(text, prefix) matches Some(left) ==> prefix + left == text,
{
    assert((prefix + rest).skip(prefix.len() as int) =~= rest);
    assert(prefix.is_prefix_of(prefix + rest));
    if let Some(left) = without_prefix(text, prefix) {
        assert(prefix + left =~= text);
    }
}

/// Whether `upper` is one of the letters `A` to `Z` and `lower` the same letter
/// in lower case.
pub open spec fn is_pair_of_cases(upper: char, lower: char) -> bool {
    'A' <= upper && upper <= 'Z' && lower as u32 == upper as u32 + 32
}

/// Two texts are equal up to case exactly if they are equally long and at each
/// place hold the same character, or the two cases of one ASCII letter.
pub proof fn law_case_of_ascii_letters(a: Seq<char>, b: Seq<char>)
    ensures
        same_ignoring_ascii_case(a, b) <==> a.len() == b.len() && forall|i: int|
            0 <= i < a.len() ==> #[trigger] a[i] == b[i] || is_pair_of_cases(a[i], b[i])
                || is_pair_of_cases(b[i], a[i]),
{
    if same_ignoring_ascii_case(a, b) {
        assert forall|i: int| 0 <= i < a.len() implies #[trigger] a[i] == b[i] || is_pair_of_cases(
            a[i],
            b[i],
        ) || is_pair_of_cases(b[i], a[i]) by {
            assert(ascii_lower(a[i]) == ascii_lower(b[i]));
        }
    }
}

/// The hexadecimal digits are the ten digits and the letters `a` to `f` in both
/// cases.
pub proof fn law_hexadecimal_digits(c: char)
    ensures
        hex_digit(c) <==> "0123456789abcdefABCDEF"@.contains(c),
{
    reveal_strlit("0123456789abcdefABCDEF");
    let digits = "0123456789abcdefABCDEF"@;
    if hex_digit(c) {
        let i = if '0' <= c <= '9' {
            c as u32 - '0' as u32
        } else if 'a' <= c <= 'f' {
            c as u32 - 'a' as u32 + 10
        } else {
            c as u32 - 'A' as u32 + 16
        };
        assert(digits[i] == c);
    }
}

/// Joining puts the separator between neighbours and nowhere else: two lists that
/// are joined one after the other, with a separator between them, give what their
/// concatenation gives.
pub proof fn law_joining_in_two_parts(
    a: Seq<Seq<char>>,
    b: Seq<Seq<char>>,
    separator: Seq<char>,
)
    requires
        a.len() > 0,
        b.len() > 0,
    ensures
        joined(a + b, separator) == joined(a, separator) + separator + joined(b, separator),
    decreases b.len(),
{
    assert((a + b).drop_last() =~= a + b.drop_last());
    assert((a + b).last() == b.last());
    if b.len() == 1 {
        assert(a + b.drop_last() =~= a);
    } else {
        law_joining_in_two_parts(a, b.drop_last(), separator);
    }
    assert(joined(a + b, separator) =~= joined(a, separator) + separator + joined(b, separator));
}

/// A single text is joined to itself, and no texts to nothing.
pub proof fn law_joining_one(text: Seq<char>, separator: Seq<char>)
    ensures
        joined(seq![text], separator) == text,
        joined(seq![], separator).len() == 0,
{
}

/// What follows the first occurrence of a needle is the end of the text, and the
/// needle stands right before it.
pub proof fn law_rest_stands_behind_the_needle(hay: Seq<char>, needle: Seq<char>)
    requires
        after_first(hay, needle) is Some,
    ensures
        needle.len() + after_first(hay, needle)->0.len() <= hay.len(),
        hay == hay.take(hay.len() - needle.len() - after_first(hay, needle)->0.len()) + needle
            + after_first(hay, needle)->0,
    decreases hay.len(),
{
    let rest = after_first(hay, needle)->0;
    let n = hay.len() - needle.len() - rest.len();
    if needle.is_prefix_of(hay) {
        assert(hay =~= hay.take(n) + needle + rest);
    } else {
        let shorter = hay.drop_first();
        law_rest_stands_behind_the_needle(shorter, needle);
        assert(hay =~= seq![hay[0]] + shorter);
        assert(hay.take(n) =~= seq![hay[0]] + shorter.take(n - 1));
        assert(hay.take(n) + needle + rest =~= seq![hay[0]] + (shorter.take(n - 1) + needle
            + rest));
    }
}

/// The first word of a text is what stands between white space at its front and
/// the next white space or the end.
pub proof fn law_first_word(gap: Seq<char>, word: Seq<char>, tail: Seq<char>)
    requires
        forall|i: int| 0 <= i < gap.len() ==> white_space(#[trigger] gap[i]),
        word.len() > 0,
        forall|i: int| 0 <= i < word.len() ==> !white_space(#[trigger] word[i]),
        tail.len() > 0 ==> white_space(tail[0]),
    ensures
        words_of(gap + word + tail).len() > 0,
        words_of(gap + word + tail)[0] == word,
{
    let s = gap + word + tail;
    assert forall|i: int| 0 <= i < gap.len() implies #[trigger] is_space()(s[i]) by {
        assert(s[i] == gap[i]);
    }
    assert(s[gap.len() as int] == word[0]);
    lemma_span(s, is_space(), gap.len());
    let t = word + tail;
    assert(trim_front(s) =~= t);
    assert forall|i: int| 0 <= i < word.len() implies #[trigger] is_ink()(t[i]) by {
        assert(t[i] == word[i]);
    }
    if tail.len() > 0 {
        assert(t[word.len() as int] == tail[0]);
    }
    lemma_span(t, is_ink(), word.len());
    assert(t.take(word.len() as int) =~= word);
}

/// White space alone holds no word.
pub proof fn law_blank_text_has_no_words(s: Seq<char>)
    requires
        forall|i: int| 0 <= i < s.len() ==> white_space(#[trigger] s[i]),
    ensures
        words_of(s).len() == 0,
{
    assert forall|i: int| 0 <= i < s.len() implies #[trigger] is_space()(s[i]) by {}
    lemma_span(s, is_space(), s.len());
    assert(trim_front(s).len() == 0);
    lemma_span_bounds(trim_front(s), is_ink());
}

} // verus!
