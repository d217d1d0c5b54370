//! Characters, lines and patterns of source text.
//!
//! A text is the sequence of its characters.  Everything that reads a text
//! here works on that sequence, so that a contract never speaks of bytes.

use vstd::prelude::*;

verus! {

/// Whether `pattern` stands in `text` at position `at`.
pub open spec fn occurs_at(text: Seq<char>, pattern: Seq<char>, at: int) -> bool {
    &&& 0 <= at
    &&& at + pattern.len() <= text.len()
    &&& text.subrange(at, at + pattern.len()) == pattern
}

/// Whether `pattern` stands anywhere in `text`.
pub open spec fn contains(text: Seq<char>, pattern: Seq<char>) -> bool {
    exists|at: int| occurs_at(text, pattern, at)
}

/// The first position at or behind `from` at which `pattern` stands in `text`.
pub open spec fn first_from(text: Seq<char>, pattern: Seq<char>, from: int) -> Option<int>
    decreases text.len() - from + 1,
{
    if from < 0 || from + pattern.len() > text.len() {
        None
    } else if occurs_at(text, pattern, from) {
        Some(from)
    } else {
        first_from(text, pattern, from + 1)
    }
}

/// The first position at which `pattern` stands in `text`.
pub open spec fn first(text: Seq<char>, pattern: Seq<char>) -> Option<int> {
    first_from(text, pattern, 0)
}

/// What stands before and behind the first `pattern` in `text`.
pub open spec fn split_once(text: Seq<char>, pattern: Seq<char>) -> Option<(Seq<char>, Seq<char>)> {
    match first(text, pattern) {
        Some(at) => Some(
            (
                text.subrange(0, at),
                text.subrange(at + pattern.len(), text.len() as int),
            ),
        ),
        None => None,
    }
}

/// The Unicode property `White_Space`.
pub open spec fn is_white_space(c: char) -> bool {
    let code = c as u32;
    ||| 0x9 <= code <= 0xd
    ||| code == 0x20
    ||| code == 0x85
    ||| code == 0xa0
    ||| code == 0x1680
    ||| 0x2000 <= code <= 0x200a
    ||| code == 0x2028
    ||| code == 0x2029
    ||| code == 0x202f
    ||| code == 0x205f
    ||| code == 0x3000
}

/// `text` without the white space that it begins with.
pub open spec fn trim_start(text: Seq<char>) -> Seq<char>
    decreases text.len(),
{
    if text.len() > 0 && is_white_space(text[0]) {
        trim_start(text.subrange(1, text.len() as int))
    } else {
        text
    }
}

/// `text` without the white space that it ends with.
pub open spec fn trim_end(text: Seq<char>) -> Seq<char>
    decreases text.len(),
{
    if text.len() > 0 && is_white_space(text.last()) {
        trim_end(text.drop_last())
    } else {
        text
    }
}

/// `text` without the white space around it.
pub open spec fn trim(text: Seq<char>) -> Seq<char> {
    trim_end(trim_start(text))
}

/// A line that a line feed ended, without the carriage return before it.
pub open spec fn without_carriage_return(line: Seq<char>) -> Seq<char> {
    if line.len() > 0 && line.last() == '\r' {
        line.drop_last()
    } else {
        line
    }
}

/// The first line feed at or behind `from`, or the length of the text.
pub open spec fn line_end(text: Seq<char>, from: int) -> int
    decreases text.len() - from,
{
    if from < 0 || from >= text.len() {
        text.len() as int
    } else if text[from] == '\n' {
        from
    } else {
        line_end(text, from + 1)
    }
}

/// The lines of `text` from position `from` on.  A line ends at a line feed,
/// which a carriage return may precede; neither belongs to the line.  A text
/// that ends in a line feed has no empty last line.
pub open spec fn lines_from(text: Seq<char>, from: int) -> Seq<Seq<char>>
    decreases text.len() - from,
{
    if from < 0 || from >= text.len() {
        Seq::empty()
    } else {
        let end = line_end(text, from);
        if from <= end < text.len() {
            seq![without_carriage_return(text.subrange(from, end))] + lines_from(text, end + 1)
        } else {
            seq![text.subrange(from, text.len() as int)]
        }
    }
}

/// The lines of `text`.
pub open spec fn lines(text: Seq<char>) -> Seq<Seq<char>> {
    lines_from(text, 0)
}

/// The views of a list of character vectors.
pub open spec fn views(lines: Seq<Vec<char>>) -> Seq<Seq<char>> {
    lines.map_values(|line: Vec<char>| line@)
}

/// The characters of a string.
pub fn chars_of(text: &str) -> (chars: Vec<char>)
    ensures
        chars@ == text@,
{
    let mut chars: Vec<char> = Vec::new();
    for c in iter: text.chars()
        invariant
            chars@ == iter.seq().take(iter.index()),
            iter.seq() == text@,
    {
        chars.push(c);
    }
    chars
}

/// Puts characters together to a string.
///
/// `String::from_iter` over the characters of a slice: the string holds these
/// characters, in this order.
#[verifier::external_body]
pub(crate) fn string_of(chars: &[char]) -> (text: String)
    ensures
        text@ == chars@,
{
    String::from_iter(chars.iter())
}

/// Whether two slices of characters are equal.
pub fn chars_equal(left: &[char], right: &[char]) -> (equal: bool)
    ensures
        equal == (left@ == right@),
{
    if left.len() != right.len() {
        return false;
    }
    let mut i: usize = 0;
    while i < left.len()
        invariant
            left.len() == right.len(),
            i <= left.len(),
            forall|j: int| 0 <= j < i ==> left@[j] == right@[j],
        decreases left.len() - i,
    {
        if left[i] != right[i] {
            return false;
        }
        i += 1;
    }
    assert(left@ =~= right@);
    true
}

/// Whether two strings are equal.
pub fn strings_equal(left: &str, right: &str) -> (equal: bool)
    ensures
        equal == (left@ == right@),
{
    let left = chars_of(left);
    let right = chars_of(right);
    chars_equal(left.as_slice(), right.as_slice())
}

/// Whether `pattern` stands in `text` at position `at`.
pub fn pattern_at(text: &[char], pattern: &[char], at: usize) -> (found: bool)
    ensures
        found == occurs_at(text@, pattern@, at as int),
{
    if at > text.len() || pattern.len() > text.len() - at {
        return false;
    }
    let mut i: usize = 0;
    while i < pattern.len()
        invariant
            i <= pattern.len(),
            at + pattern.len() <= text.len(),
            forall|j: int| 0 <= j < i ==> text@[at + j] == pattern@[j],
        decreases pattern.len() - i,
    {
        if text[at + i] != pattern[i] {
            assert(text@.subrange(at as int, at + pattern@.len())[i as int] != pattern@[i as int]);
            return false;
        }
        i += 1;
    }
    assert(text@.subrange(at as int, at + pattern@.len()) =~= pattern@);
    true
}

/// Whether `text` begins with `pattern`.
pub fn starts_with(text: &[char], pattern: &str) -> (found: bool)
    ensures
        found == occurs_at(text@, pattern@, 0),
{
    let pattern = chars_of(pattern);
    pattern_at(text, pattern.as_slice(), 0)
}

/// The first position of `pattern` in `text`.
pub fn find(text: &[char], pattern: &[char]) -> (at: Option<usize>)
    ensures
        match at {
            Some(at) => first(text@, pattern@) == Some(at as int),
            None => first(text@, pattern@) is None,
        },
{
    let mut at: usize = 0;
    while at <= text.len() && pattern.len() <= text.len() - at
        invariant
            first(text@, pattern@) == first_from(text@, pattern@, at as int),
        decreases text.len() + 1 - at,
    {
        if pattern_at(text, pattern, at) {
            return Some(at);
        }
        if at == text.len() {
            assert(text@.subrange(at as int, at as int) =~= pattern@);
        }
        at += 1;
    }
    None
}

/// A first position is the least one at which the pattern stands, and there is
/// one wherever the text contains the pattern.
pub proof fn lemma_first_from(text: Seq<char>, pattern: Seq<char>, from: int)
    requires
        0 <= from,
    ensures
        match first_from(text, pattern, from) {
            Some(at) => {
                &&& from <= at
                &&& occurs_at(text, pattern, at)
                &&& forall|i: int| from <= i < at ==> !occurs_at(text, pattern, i)
            },
            None => forall|i: int| from <= i ==> !occurs_at(text, pattern, i),
        },
    decreases text.len() - from + 1,
{
    if from + pattern.len() <= text.len() && !occurs_at(text, pattern, from) {
        if from == text.len() {
            assert(text.subrange(from, from) =~= pattern);
        }
        lemma_first_from(text, pattern, from + 1);
    }
}

/// Whether `pattern` stands anywhere in `text`.
pub fn has_pattern(text: &[char], pattern: &[char]) -> (found: bool)
    ensures
        found == contains(text@, pattern@),
{
    proof {
        lemma_first_from(text@, pattern@, 0);
    }
    match find(text, pattern) {
        Some(_) => true,
        None => false,
    }
}

/// The code point of a character.
pub fn code_of(c: char) -> (code: u32)
    ensures
        code == c as int,
{
    c as u32
}

/// Whether a character has the Unicode property `White_Space`.
pub fn white_space(c: char) -> (found: bool)
    ensures
        found == is_white_space(c),
{
    let code: u32 = c as u32;
    (0x9 <= code && code <= 0xd) || code == 0x20 || code == 0x85 || code == 0xa0 || code == 0x1680
        || (0x2000 <= code && code <= 0x200a) || code == 0x2028 || code == 0x2029 || code == 0x202f
        || code == 0x205f || code == 0x3000
}

/// A copy of the characters of `text` from `from` up to `to`.
pub fn copied(text: &[char], from: usize, to: usize) -> (part: Vec<char>)
    requires
        from <= to <= text.len(),
    ensures
        part@ == text@.subrange(from as int, to as int),
{
    let mut part: Vec<char> = Vec::new();
    let mut i: usize = from;
    while i < to
        invariant
            from <= i <= to <= text.len(),
            part@ == text@.subrange(from as int, i as int),
        decreases to - i,
    {
        part.push(text[i]);
        i += 1;
        assert(text@.subrange(from as int, i as int).drop_last() =~= text@.subrange(
            from as int,
            i - 1,
        ));
        assert(part@ =~= text@.subrange(from as int, i as int));
    }
    part
}

/// `text` without the white space around it.
pub fn trimmed(text: &[char]) -> (part: Vec<char>)
    ensures
        part@ == trim(text@),
{
    let mut from: usize = 0;
    let mut to: usize = text.len();
    proof {
        assert(text@.subrange(0, text@.len() as int) =~= text@);
    }
    while from < text.len() && white_space(text[from])
        invariant
            from <= text.len(),
            trim_start(text@) == trim_start(text@.subrange(from as int, text@.len() as int)),
        decreases text.len() - from,
    {
        proof {
            let rest = text@.subrange(from as int, text@.len() as int);
            assert(rest.subrange(1, rest.len() as int) =~= text@.subrange(
                from + 1,
                text@.len() as int,
            ));
        }
        from += 1;
    }
    let ghost start = text@.subrange(from as int, text@.len() as int);
    assert(trim_start(text@) == start);
    while from < to && white_space(text[to - 1])
        invariant
            from <= to <= text.len(),
            trim_end(start) == trim_end(text@.subrange(from as int, to as int)),
        decreases to - from,
    {
        proof {
            let rest = text@.subrange(from as int, to as int);
            assert(rest.drop_last() =~= text@.subrange(from as int, to - 1));
            assert(rest.last() == text@[to - 1]);
        }
        to -= 1;
    }
    copied(text, from, to)
}

/// The lines of `text`.
pub fn split_lines(text: &[char]) -> (result: Vec<Vec<char>>)
    ensures
        views(result@) == lines(text@),
{
    let mut result: Vec<Vec<char>> = Vec::new();
    let mut from: usize = 0;
    while from < text.len()
        invariant
            from <= text.len(),
            views(result@) + lines_from(text@, from as int) == lines(text@),
        decreases text.len() - from,
    {
        let mut end: usize = from;
        while end < text.len() && text[end] != '\n'
            invariant
                from <= end <= text.len(),
                line_end(text@, from as int) == line_end(text@, end as int),
            decreases text.len() - end,
        {
            end += 1;
        }
        let ghost before = views(result@);
        if end == text.len() {
            let line = copied(text, from, end);
            proof {
                assert(lines_from(text@, from as int) == seq![line@]);
            }
            result.push(line);
            from = end;
            assert(views(result@) =~= before + seq![line@]);
            assert(lines_from(text@, from as int) =~= Seq::<Seq<char>>::empty());
            assert(views(result@) + lines_from(text@, from as int) =~= before + seq![line@]);
        } else {
            let mut to: usize = end;
            if from < end && text[end - 1] == '\r' {
                to = end - 1;
            }
            let line = copied(text, from, to);
            proof {
                let full = text@.subrange(from as int, end as int);
                assert(full.drop_last() =~= text@.subrange(from as int, end - 1) || full.len() == 0);
                assert(line@ == without_carriage_return(full));
            }
            result.push(line);
            from = end + 1;
            assert(views(result@) =~= before + seq![line@]);
            assert(views(result@) + lines_from(text@, from as int) =~= before + (seq![line@]
                + lines_from(text@, from as int)));
        }
    }
    assert(lines_from(text@, from as int) =~= Seq::<Seq<char>>::empty());
    assert(views(result@) + Seq::<Seq<char>>::empty() =~= views(result@));
    result
}

/// The twenty-five white-space characters.
pub proof fn lemma_white_space_by_code(c: char)
    ensures
        is_white_space(c) <==> {
            ||| c == '\t'
            ||| c == '\n'
            ||| c as u32 == 11
            ||| c as u32 == 12
            ||| c == '\r'
            ||| c == ' '
            ||| c as u32 == 133
            ||| c as u32 == 160
            ||| c as u32 == 5_760
            ||| 8_192 <= c as u32 && c as u32 <= 8_202
            ||| c as u32 == 8_232
            ||| c as u32 == 8_233
            ||| c as u32 == 8_239
            ||| c as u32 == 8_287
            ||| c as u32 == 12_288
        },
{
}

/// A pattern stands at a place where its characters stand one by one.
pub proof fn lemma_pattern_by_character(text: Seq<char>, pattern: Seq<char>, at: int)
    requires
        0 <= at,
    ensures
        occurs_at(text, pattern, at) <==> at + pattern.len() <= text.len() && forall|i: int|
            0 <= i < pattern.len() ==> text[at + i] == #[trigger] pattern[i],
{
    if at + pattern.len() <= text.len() {
        let part = text.subrange(at, at + pattern.len());
        if forall|i: int| 0 <= i < pattern.len() ==> text[at + i] == #[trigger] pattern[i] {
            assert(part =~= pattern);
        }
        if part == pattern {
            assert forall|i: int| 0 <= i < pattern.len() implies text[at + i]
                == #[trigger] pattern[i] by {
                assert(part[i] == pattern[i]);
            }
        }
    }
}

/// Splitting at a pattern gives two parts that make up the text with the pattern
/// between them, and the pattern does not stand earlier.
pub proof fn lemma_split_makes_up_the_text(text: Seq<char>, pattern: Seq<char>)
    ensures
        split_once(text, pattern) matches Some((before, behind)) ==> {
            &&& text =~= before + pattern + behind
            &&& forall|at: int| 0 <= at < before.len() ==> !occurs_at(text, pattern, at)
        },
        split_once(text, pattern) is None ==> !contains(text, pattern),
{
    lemma_first_from(text, pattern, 0);
}

proof fn lemma_trim_start_by_character(text: Seq<char>) -> (dropped: int)
    ensures
        0 <= dropped <= text.len(),
        trim_start(text) =~= text.skip(dropped),
        forall|i: int| 0 <= i < dropped ==> is_white_space(#[trigger] text[i]),
        dropped < text.len() ==> !is_white_space(text[dropped]),
    decreases text.len(),
{
    if text.len() > 0 && is_white_space(text[0]) {
        let rest = text.subrange(1, text.len() as int);
        let more = lemma_trim_start_by_character(rest);
        assert forall|i: int| 0 <= i < more + 1 implies is_white_space(#[trigger] text[i]) by {
            if i > 0 {
                assert(rest[i - 1] == text[i]);
            }
        }
        if more + 1 < text.len() {
            assert(rest[more] == text[more + 1]);
        }
        more + 1
    } else {
        0
    }
}

proof fn lemma_trim_end_by_character(text: Seq<char>) -> (kept: int)
    ensures
        0 <= kept <= text.len(),
        trim_end(text) =~= text.take(kept),
        forall|i: int| kept <= i < text.len() ==> is_white_space(#[trigger] text[i]),
        kept > 0 ==> !is_white_space(text[kept - 1]),
    decreases text.len(),
{
    if text.len() > 0 && is_white_space(text.last()) {
        let rest = text.drop_last();
        let kept = lemma_trim_end_by_character(rest);
        assert forall|i: int| kept <= i < text.len() implies is_white_space(#[trigger] text[i]) by {
            if i < text.len() - 1 {
                assert(rest[i] == text[i]);
            }
        }
        kept
    } else {
        text.len() as int
    }
}

/// Trimming keeps one part of a text: what it leaves out on both sides is white
/// space, and the part neither begins nor ends with any.
pub proof fn lemma_trim_by_character(text: Seq<char>) -> (ends: (int, int))
    ensures
        0 <= ends.0 <= ends.1 <= text.len(),
        trim(text) =~= text.subrange(ends.0, ends.1),
        forall|i: int|
            0 <= i < ends.0 || ends.1 <= i < text.len() ==> is_white_space(#[trigger] text[i]),
        ends.0 < ends.1 ==> !is_white_space(text[ends.0]) && !is_white_space(text[ends.1 - 1]),
{
    let from = lemma_trim_start_by_character(text);
    let rest = trim_start(text);
    let kept = lemma_trim_end_by_character(rest);
    assert forall|i: int| from + kept <= i < text.len() implies is_white_space(#[trigger] text[i]) by {
        assert(rest[i - from] == text[i]);
    }
    if kept > 0 {
        assert(rest[0] == text[from]);
        assert(rest[kept - 1] == text[from + kept - 1]);
    }
    (from, from + kept)
}

proof fn lemma_line_end_is(text: Seq<char>, from: int, end: int)
    requires
        0 <= from <= end <= text.len(),
        forall|i: int| from <= i < end ==> #[trigger] text[i] != '\n',
        end < text.len() ==> text[end] == '\n',
    ensures
        line_end(text, from) == end,
    decreases end - from,
{
    if from < end {
        lemma_line_end_is(text, from + 1, end);
    }
}

/// The lines of a text, one after the other: no text has no lines; what has no
/// line feed is one line as it is; and what stands before a line feed is a line,
/// without one carriage return at its end, before the lines of what stands
/// behind.
pub proof fn lemma_lines_one_by_one(text: Seq<char>, from: int, end: int)
    requires
        0 <= from <= end <= text.len(),
        forall|i: int| from <= i < end ==> #[trigger] text[i] != '\n',
        end < text.len() ==> text[end] == '\n',
    ensures
        from == text.len() ==> lines_from(text, from).len() == 0,
        from < end && end == text.len() ==> lines_from(text, from) =~= seq![text.skip(from)],
        end < text.len() ==> lines_from(text, from).len() > 0 && lines_from(
            text,
            from,
        ).drop_first() =~= lines_from(text, end + 1),
        end < text.len() && (end == from || text[end - 1] != '\r') ==> lines_from(text, from)[0]
            =~= text.subrange(from, end),
        from < end < text.len() && text[end - 1] == '\r' ==> lines_from(text, from)[0]
            =~= text.subrange(from, end - 1),
        lines(text) == lines_from(text, 0),
{
    lemma_line_end_is(text, from, end);
    if from < text.len() {
        assert(text.subrange(from, text.len() as int) =~= text.skip(from));
    }
    if from < end {
        assert(text.subrange(from, end).last() == text[end - 1]);
    }
}

} // verus!
