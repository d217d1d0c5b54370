//! The inventory of declared tests.
//!
//! An inventory lists test names beside the source files that own them.  The
//! functions here read a source file's text and say which tests it declares,
//! so that the two can be held against each other in both directions.

use vstd::prelude::*;

use crate::text::{
    chars_equal, chars_of, contains, copied, find, first, has_pattern, lemma_first_from, lines,
    occurs_at, pattern_at, split_lines, split_once, starts_with, string_of, trim, trimmed, views,
};

verus! {

/// Whether a trimmed line is the attribute of a test.
pub open spec fn test_attribute(line: Seq<char>) -> bool {
    line == "#[test]"@ || occurs_at(line, "#[tokio::test"@, 0)
}

/// Whether a trimmed line may stand between an attribute and the item below it:
/// an empty line, a comment or another attribute.
pub open spec fn passed_over(line: Seq<char>) -> bool {
    line.len() == 0 || occurs_at(line, "//"@, 0) || occurs_at(line, "#["@, 0)
}

/// The text that declares a function of this name.
pub open spec fn declaration(name: Seq<char>) -> Seq<char> {
    "fn "@ + name + "("@
}

/// Whether the attribute of a test stands above line `at`, with nothing but
/// lines that are passed over between the two.
pub open spec fn attribute_above(lines: Seq<Seq<char>>, at: int) -> bool {
    exists|k: int|
        0 <= k < at && test_attribute(trim(#[trigger] lines[k])) && forall|j: int|
            k < j < at ==> passed_over(trim(#[trigger] lines[j]))
}

/// The position behind the character at `from`, and whether a string literal is
/// open there.  In a string a backslash takes the next character with it, and a
/// quote closes the string.  Outside, a quote opens one, except where it is a
/// character literal of its own.
pub open spec fn stepped(line: Seq<char>, from: int, quoted: bool) -> (int, bool) {
    if quoted {
        if line[from] == '\\' {
            (if from + 2 <= line.len() {
                from + 2
            } else {
                from + 1
            }, true)
        } else {
            (from + 1, line[from] != '"')
        }
    } else if occurs_at(line, "'\"'"@, from) {
        (from + "'\"'"@.len(), false)
    } else if occurs_at(line, "'\\\"'"@, from) {
        (from + "'\\\"'"@.len(), false)
    } else {
        (from + 1, line[from] == '"')
    }
}

/// Where the comment that ends a line begins, for a line that is read from
/// `from` on, inside a string literal or outside: at the first `//` outside a
/// string literal, or behind the line.
pub open spec fn comment_start(line: Seq<char>, from: int, quoted: bool) -> int
    decreases line.len() - from,
    when 0 <= from
{
    if from >= line.len() {
        line.len() as int
    } else if !quoted && occurs_at(line, "//"@, from) {
        from
    } else {
        let (next, inside) = stepped(line, from, quoted);
        if next <= from {
            line.len() as int
        } else {
            comment_start(line, next, inside)
        }
    }
}

/// What a line, read from `from` on, holds outside its comment and outside the
/// texts of its string literals.
pub open spec fn bare_from(line: Seq<char>, from: int, quoted: bool) -> Seq<char>
    decreases line.len() - from,
    when 0 <= from
{
    if from >= line.len() || (!quoted && occurs_at(line, "//"@, from)) {
        Seq::empty()
    } else {
        let (next, inside) = stepped(line, from, quoted);
        if next <= from {
            Seq::empty()
        } else if quoted && inside {
            bare_from(line, next, inside)
        } else {
            seq![line[from]] + bare_from(line, next, inside)
        }
    }
}

/// Whether a line, read from `from` on, inside a string literal or outside, ends
/// inside one.
pub open spec fn ends_quoted(line: Seq<char>, from: int, quoted: bool) -> bool
    decreases line.len() - from,
    when 0 <= from
{
    if from >= line.len() {
        quoted
    } else if !quoted && occurs_at(line, "//"@, from) {
        false
    } else {
        let (next, inside) = stepped(line, from, quoted);
        if next <= from {
            quoted
        } else {
            ends_quoted(line, next, inside)
        }
    }
}

/// Whether the quotes of a line do not pair up.  A string literal then runs over
/// the beginning or the end of the line, and the line alone does not say which
/// of its parts are code.
pub open spec fn unpaired(line: Seq<char>) -> bool {
    ends_quoted(line, 0, false)
}

/// Where the code of a line ends: before the first `//` outside a string
/// literal or, where the quotes do not pair up, before the first `//` of all.
pub open spec fn code_end(line: Seq<char>) -> int {
    if unpaired(line) {
        match first(line, "//"@) {
            Some(at) => at,
            None => line.len() as int,
        }
    } else {
        comment_start(line, 0, false)
    }
}

/// What stands before the comment that ends a line.  Two slashes in a string
/// literal of the line begin no comment.
pub open spec fn code_part(line: Seq<char>) -> Seq<char> {
    line.subrange(0, code_end(line))
}

/// What a line holds outside its comment and outside the texts of its string
/// literals.  Where the quotes do not pair up, nothing before the comment is
/// taken for such a text.
pub open spec fn bare_code(line: Seq<char>) -> Seq<char> {
    if unpaired(line) {
        code_part(line)
    } else {
        bare_from(line, 0, false)
    }
}

/// Whether some line declares `name` below the attribute of a test.  What
/// stands in a comment or in a string literal declares nothing.
pub open spec fn declares(lines: Seq<Seq<char>>, name: Seq<char>) -> bool {
    exists|at: int|
        0 <= at < lines.len() && contains(bare_code(#[trigger] lines[at]), declaration(name))
            && attribute_above(lines, at)
}

/// The first line at or behind `from` that is not passed over, or the number
/// of lines.
pub open spec fn code_line_from(lines: Seq<Seq<char>>, from: int) -> int
    decreases lines.len() - from,
{
    if from < 0 || from >= lines.len() {
        lines.len() as int
    } else if passed_over(trim(lines[from])) {
        code_line_from(lines, from + 1)
    } else {
        from
    }
}

/// The name that code declares: what stands between its first `fn ` and the
/// next opening bracket.
pub open spec fn declared_name(line: Seq<char>) -> Option<Seq<char>> {
    match split_once(line, "fn "@) {
        Some((_, rest)) => match split_once(rest, "("@) {
            Some((name, _)) => Some(name),
            None => None,
        },
        None => None,
    }
}

/// The name that the attribute on line `at` belongs to, where there is one.
pub open spec fn name_below(lines: Seq<Seq<char>>, at: int) -> Option<Seq<char>> {
    let below = code_line_from(lines, at + 1);
    if 0 <= below < lines.len() {
        declared_name(bare_code(lines[below]))
    } else {
        None
    }
}

/// The names with this prefix that the attributes on the first `count` lines
/// belong to, in order.
pub open spec fn names_up_to(lines: Seq<Seq<char>>, count: int, prefix: Seq<char>) -> Seq<Seq<char>>
    decreases count,
{
    if count <= 0 {
        Seq::empty()
    } else {
        let before = names_up_to(lines, count - 1, prefix);
        if test_attribute(trim(lines[count - 1])) {
            match name_below(lines, count - 1) {
                Some(name) => if occurs_at(name, prefix, 0) {
                    before.push(name)
                } else {
                    before
                },
                None => before,
            }
        } else {
            before
        }
    }
}

/// The tests with this prefix that a source declares, in order.
pub open spec fn declared_names(source: Seq<char>, prefix: Seq<char>) -> Seq<Seq<char>> {
    names_up_to(lines(source), lines(source).len() as int, prefix)
}

/// Whether code calls `needle`, or hands it to a call as its one argument in
/// quotes.
pub open spec fn uses(code: Seq<char>, needle: Seq<char>) -> bool {
    contains(code, needle + "("@) || contains(code, "(\""@ + needle + "\")"@)
}

/// The first line whose code holds `pattern`, or the number of lines.
pub open spec fn first_line_with(lines: Seq<Seq<char>>, pattern: Seq<char>, from: int) -> int
    decreases lines.len() - from,
{
    if from < 0 || from >= lines.len() {
        lines.len() as int
    } else if contains(bare_code(lines[from]), pattern) {
        from
    } else {
        first_line_with(lines, pattern, from + 1)
    }
}

/// The end of the item that begins on line `from`: behind the first line that
/// is a closing brace, or the number of lines.
pub open spec fn item_end(lines: Seq<Seq<char>>, from: int) -> int
    decreases lines.len() - from,
{
    if from < 0 || from >= lines.len() {
        lines.len() as int
    } else if lines[from] == "}"@ {
        from + 1
    } else {
        item_end(lines, from + 1)
    }
}

/// Lines put together with line feeds between them.
pub open spec fn joined(lines: Seq<Seq<char>>) -> Seq<char>
    decreases lines.len(),
{
    if lines.len() == 0 {
        Seq::empty()
    } else if lines.len() == 1 {
        lines[0]
    } else {
        joined(lines.drop_last()) + "\n"@ + lines.last()
    }
}

/// Whether a line is the attribute of a test.
pub fn is_test_attribute(line: &str) -> (found: bool)
    ensures
        found == test_attribute(line@),
{
    let line = chars_of(line);
    is_attribute(line.as_slice())
}

fn is_attribute(line: &[char]) -> (found: bool)
    ensures
        found == test_attribute(line@),
{
    let plain = chars_of("#[test]");
    chars_equal(line, plain.as_slice()) || starts_with(line, "#[tokio::test")
}

fn is_passed_over(line: &[char]) -> (found: bool)
    ensures
        found == passed_over(line@),
{
    line.len() == 0 || starts_with(line, "//") || starts_with(line, "#[")
}

/// A step leads on, and not behind the line.
proof fn lemma_stepped(line: Seq<char>, from: int, quoted: bool)
    requires
        0 <= from < line.len(),
    ensures
        from < stepped(line, from, quoted).0 <= line.len(),
{
    reveal_strlit("'\"'");
    reveal_strlit("'\\\"'");
}

/// The position behind the character at `from`, and whether a string literal is
/// open there.
fn step(line: &[char], from: usize, quoted: bool) -> (result: (usize, bool))
    requires
        from < line.len(),
    ensures
        (result.0 as int, result.1) == stepped(line@, from as int, quoted),
        from < result.0 <= line.len(),
{
    proof {
        lemma_stepped(line@, from as int, quoted);
    }
    if quoted {
        if line[from] == '\\' {
            if line.len() - from >= 2 {
                (from + 2, true)
            } else {
                (from + 1, true)
            }
        } else {
            (from + 1, line[from] != '"')
        }
    } else {
        let plain = chars_of("'\"'");
        let escaped = chars_of("'\\\"'");
        if pattern_at(line, plain.as_slice(), from) {
            (from + plain.len(), false)
        } else if pattern_at(line, escaped.as_slice(), from) {
            (from + escaped.len(), false)
        } else {
            (from + 1, line[from] == '"')
        }
    }
}

/// Where the code of a line ends, and what the line holds outside its comment
/// and outside the texts of its string literals.
fn scanned(line: &[char]) -> (result: (usize, Vec<char>))
    ensures
        result.0 == code_end(line@),
        result.0 <= line.len(),
        result.1@ == bare_code(line@),
{
    let comment = chars_of("//");
    let mut bare: Vec<char> = Vec::new();
    let mut from: usize = 0;
    let mut quoted = false;
    let ghost whole = bare_from(line@, 0, false);
    assert(bare@ + whole =~= whole);
    while from < line.len() && (quoted || !pattern_at(line, comment.as_slice(), from))
        invariant
            from <= line.len(),
            comment@ == "//"@,
            unpaired(line@) == ends_quoted(line@, from as int, quoted),
            comment_start(line@, 0, false) == comment_start(line@, from as int, quoted),
            bare@ + bare_from(line@, from as int, quoted) == whole,
        decreases line.len() - from,
    {
        let ghost before = bare@;
        let (next, inside) = step(line, from, quoted);
        if !quoted || !inside {
            bare.push(line[from]);
            assert(before + (seq![line@[from as int]] + bare_from(line@, next as int, inside))
                =~= bare@ + bare_from(line@, next as int, inside));
        }
        from = next;
        quoted = inside;
    }
    assert(bare@ + Seq::<char>::empty() =~= bare@);
    if quoted {
        proof {
            lemma_first_from(line@, comment@, 0);
        }
        let end: usize = match find(line, comment.as_slice()) {
            Some(at) => at,
            None => line.len(),
        };
        (end, copied(line, 0, end))
    } else {
        (from, bare)
    }
}

/// The views of trimmed lines.
pub open spec fn all_trimmed(lines: Seq<Seq<char>>) -> Seq<Seq<char>> {
    lines.map_values(|line: Seq<char>| trim(line))
}

fn trimmed_lines(lines: &Vec<Vec<char>>) -> (result: Vec<Vec<char>>)
    ensures
        result.len() == lines.len(),
        views(result@) == all_trimmed(views(lines@)),
        forall|j: int| 0 <= j < lines.len() ==> (#[trigger] result@[j])@ == trim(lines@[j]@),
{
    let mut result: Vec<Vec<char>> = Vec::new();
    let mut i: usize = 0;
    while i < lines.len()
        invariant
            i <= lines.len(),
            result.len() == i,
            forall|j: int| 0 <= j < i ==> (#[trigger] result@[j])@ == trim(lines@[j]@),
        decreases lines.len() - i,
    {
        result.push(trimmed(lines[i].as_slice()));
        i += 1;
    }
    assert(views(result@) =~= all_trimmed(views(lines@)));
    result
}

/// The characters that declare a function of this name.
fn declaration_of(name: &str) -> (pattern: Vec<char>)
    ensures
        pattern@ == declaration(name@),
{
    let mut pattern = chars_of("fn ");
    let mut name = chars_of(name);
    let mut open = chars_of("(");
    pattern.append(&mut name);
    pattern.append(&mut open);
    pattern
}

fn has_attribute_above(trimmed: &Vec<Vec<char>>, at: usize, Ghost(lines): Ghost<Seq<Seq<char>>>) -> (found:
    bool)
    requires
        at <= trimmed.len(),
        views(trimmed@) == all_trimmed(lines),
    ensures
        found == attribute_above(lines, at as int),
{
    proof {
        assert(lines.len() == views(trimmed@).len());
        assert forall|j: int| 0 <= j < trimmed.len() implies (#[trigger] trimmed@[j])@ == trim(
            lines[j],
        ) by {
            assert(views(trimmed@)[j] == trimmed@[j]@);
        }
    }
    let mut above: usize = at;
    while above > 0
        invariant
            above <= at <= trimmed.len(),
            lines.len() == trimmed.len(),
            forall|j: int|
                0 <= j < trimmed.len() ==> (#[trigger] trimmed@[j])@ == trim(lines[j]),
            forall|j: int| above <= j < at ==> passed_over(trim(#[trigger] lines[j])),
            forall|j: int| above <= j < at ==> !test_attribute(trim(#[trigger] lines[j])),
        decreases above,
    {
        above -= 1;
        let previous = &trimmed[above];
        assert(previous@ == trim(lines[above as int]));
        if is_attribute(previous.as_slice()) {
            return true;
        }
        if !is_passed_over(previous.as_slice()) {
            return false;
        }
    }
    false
}

/// Whether `source` declares `name` as a test.
///
/// The attribute is required, so that a name in a comment, in a string or on
/// a helper function is not taken for a test.
pub fn declares_test(source: &str, name: &str) -> (found: bool)
    ensures
        found == declares(lines(source@), name@),
{
    let pattern = declaration_of(name);
    let text = chars_of(source);
    let all = split_lines(text.as_slice());
    let trimmed = trimmed_lines(&all);
    let ghost view = views(all@);
    let mut at: usize = 0;
    while at < all.len()
        invariant
            at <= all.len(),
            view == views(all@),
            view == lines(source@),
            all.len() == trimmed.len(),
            views(trimmed@) == all_trimmed(view),
            pattern@ == declaration(name@),
            forall|i: int|
                0 <= i < at ==> !(contains(bare_code(#[trigger] view[i]), declaration(name@))
                    && attribute_above(view, i)),
        decreases all.len() - at,
    {
        assert(view[at as int] == all@[at as int]@);
        if holds_code(all[at].as_slice(), pattern.as_slice()) && has_attribute_above(
            &trimmed,
            at,
            Ghost(view),
        ) {
            return true;
        }
        at += 1;
    }
    false
}

/// The name that code declares.
fn name_in(line: &[char]) -> (name: Option<Vec<char>>)
    ensures
        match name {
            Some(name) => declared_name(line@) == Some(name@),
            None => declared_name(line@) is None,
        },
{
    let keyword = chars_of("fn ");
    let open = chars_of("(");
    proof {
        lemma_first_from(line@, keyword@, 0);
    }
    match find(line, keyword.as_slice()) {
        None => None,
        Some(at) => {
            assert(occurs_at(line@, keyword@, at as int));
            let length: usize = line.len();
            let rest = copied(line, at + keyword.len(), length);
            proof {
                lemma_first_from(rest@, open@, 0);
            }
            match find(rest.as_slice(), open.as_slice()) {
                None => None,
                Some(end) => Some(copied(rest.as_slice(), 0, end)),
            }
        },
    }
}

/// Every test in `source` whose name begins with `prefix`, in the order of
/// their declarations.
pub fn declared_test_names(source: &str, prefix: &str) -> (names: Vec<String>)
    ensures
        crate::naming::names_of(names@) == declared_names(source@, prefix@),
{
    let text = chars_of(source);
    let all = split_lines(text.as_slice());
    let trimmed = trimmed_lines(&all);
    let ghost view = views(all@);
    let mut names: Vec<String> = Vec::new();
    let mut at: usize = 0;
    proof {
        assert forall|j: int| 0 <= j < trimmed.len() implies (#[trigger] trimmed@[j])@ == trim(
            view[j],
        ) by {
            assert(view[j] == all@[j]@);
        }
        assert(crate::naming::names_of(names@) =~= names_up_to(view, 0, prefix@));
    }
    while at < trimmed.len()
        invariant
            at <= trimmed.len(),
            view.len() == trimmed.len(),
            view == lines(source@),
            view == views(all@),
            forall|j: int| 0 <= j < trimmed.len() ==> (#[trigger] trimmed@[j])@ == trim(view[j]),
            crate::naming::names_of(names@) == names_up_to(view, at as int, prefix@),
        decreases trimmed.len() - at,
    {
        let ghost before = names_up_to(view, at as int, prefix@);
        if is_attribute(trimmed[at].as_slice()) {
            let mut below: usize = at + 1;
            while below < trimmed.len() && is_passed_over(trimmed[below].as_slice())
                invariant
                    at < below <= trimmed.len(),
                    view.len() == trimmed.len(),
                    forall|j: int|
                        0 <= j < trimmed.len() ==> (#[trigger] trimmed@[j])@ == trim(view[j]),
                    code_line_from(view, at + 1) == code_line_from(view, below as int),
                decreases trimmed.len() - below,
            {
                below += 1;
            }
            assert(code_line_from(view, at + 1) == below);
            if below < trimmed.len() {
                assert(view[below as int] == all@[below as int]@);
                let (_, bare) = scanned(all[below].as_slice());
                let name = name_in(bare.as_slice());
                match name {
                    None => {},
                    Some(name) => {
                        if starts_with(name.as_slice(), prefix) {
                            let kept = string_of(name.as_slice());
                            let ghost kept_view = kept@;
                            names.push(kept);
                            assert(crate::naming::names_of(names@) =~= before.push(kept_view));
                        }
                    },
                }
            }
        }
        at += 1;
    }
    names
}

/// Whether `source` uses `needle` as code, and not in a comment alone.
pub fn uses_outside_prose(source: &str, needle: &str) -> (found: bool)
    ensures
        found == exists|i: int|
            0 <= i < lines(source@).len() && uses(code_part(#[trigger] lines(source@)[i]), needle@),
{
    let mut call = chars_of(needle);
    let mut open = chars_of("(");
    call.append(&mut open);
    let mut quoted = chars_of("(\"");
    let mut inner = chars_of(needle);
    let mut close = chars_of("\")");
    quoted.append(&mut inner);
    quoted.append(&mut close);
    let text = chars_of(source);
    let all = split_lines(text.as_slice());
    let ghost view = views(all@);
    let mut at: usize = 0;
    while at < all.len()
        invariant
            at <= all.len(),
            view == views(all@),
            view == lines(source@),
            call@ == needle@ + "("@,
            quoted@ == "(\""@ + needle@ + "\")"@,
            forall|i: int| 0 <= i < at ==> !uses(code_part(#[trigger] view[i]), needle@),
        decreases all.len() - at,
    {
        assert(view[at as int] == all@[at as int]@);
        let line = &all[at];
        let (end, _) = scanned(line.as_slice());
        let code = copied(line.as_slice(), 0, end);
        assert(code@ == code_part(view[at as int]));
        if has_pattern(code.as_slice(), call.as_slice()) || has_pattern(code.as_slice(), quoted.as_slice()) {
            return true;
        }
        at += 1;
    }
    false
}

fn holds_code(line: &[char], pattern: &[char]) -> (found: bool)
    ensures
        found == contains(bare_code(line@), pattern@),
{
    let (_, bare) = scanned(line);
    has_pattern(bare.as_slice(), pattern)
}

/// The text of one top-level test: from the first line that declares a
/// function of this name, outside comments and string literals, to the closing
/// brace in column zero.
pub fn cc7_test_body(source: &str, name: &str) -> (body: String)
    requires
        first_line_with(lines(source@), declaration(name@), 0) + 1 < lines(source@).len(),
    ensures
        body@ == ({
            let all = lines(source@);
            let start = first_line_with(all, declaration(name@), 0);
            joined(all.subrange(start, item_end(all, start)))
        }),
{
    let pattern = declaration_of(name);
    let text = chars_of(source);
    let all = split_lines(text.as_slice());
    let ghost view = views(all@);
    let mut start: usize = 0;
    while start < all.len() && !holds_code(all[start].as_slice(), pattern.as_slice())
        invariant
            start <= all.len(),
            view == views(all@),
            pattern@ == declaration(name@),
            first_line_with(view, pattern@, 0) == first_line_with(view, pattern@, start as int),
        decreases all.len() - start,
    {
        assert(view[start as int] == all@[start as int]@);
        start += 1;
    }
    assert(start < all.len() ==> view[start as int] == all@[start as int]@);
    assert(start == first_line_with(view, pattern@, 0));
    let brace = chars_of("}");
    let mut body: Vec<char> = Vec::new();
    let mut end: usize = start;
    let mut closed = false;
    assert(joined(view.subrange(start as int, start as int)) =~= Seq::<char>::empty());
    while end < all.len() && !closed
        invariant
            start <= end <= all.len(),
            start < all.len(),
            view == views(all@),
            brace@ == "}"@,
            body@ == joined(view.subrange(start as int, end as int)),
            closed ==> item_end(view, start as int) == end,
            !closed ==> item_end(view, start as int) == item_end(view, end as int),
        decreases all.len() - end, (if closed { 0int } else { 1int }),
    {
        assert(view[end as int] == all@[end as int]@);
        let line = &all[end];
        let ghost before = body@;
        if end > start {
            let mut feed = chars_of("\n");
            body.append(&mut feed);
        }
        let mut copy = copied(line.as_slice(), 0, line.len());
        assert(copy@ =~= line@);
        body.append(&mut copy);
        closed = chars_equal(line.as_slice(), brace.as_slice());
        end += 1;
        proof {
            let part = view.subrange(start as int, end as int);
            assert(part.drop_last() =~= view.subrange(start as int, end - 1));
            assert(part.last() == line@);
            if end == start + 1 {
                assert(body@ =~= line@);
                assert(joined(part) == part[0]);
            } else {
                assert(body@ =~= before + "\n"@ + line@);
            }
        }
    }
    string_of(body.as_slice())
}

/// Code that a name is read from holds the declaration of that name.
pub proof fn lemma_declared_name_is_declared(inner: Seq<char>)
    ensures
        declared_name(inner) matches Some(name) ==> contains(inner, declaration(name)),
{
    if let Some(name) = declared_name(inner) {
        lemma_first_from(inner, "fn "@, 0);
        let at = first(inner, "fn "@)->0;
        let rest = inner.subrange(at + "fn "@.len(), inner.len() as int);
        lemma_first_from(rest, "("@, 0);
        let end = first(rest, "("@)->0;
        assert(name == rest.subrange(0, end));
        let pattern = declaration(name);
        assert(inner.subrange(at, at + pattern.len()) =~= pattern) by {
            assert(inner.subrange(at, at + "fn "@.len()) == "fn "@);
            assert(rest.subrange(end, end + "("@.len()) == "("@);
            assert forall|i: int| 0 <= i < pattern.len() implies inner.subrange(
                at,
                at + pattern.len(),
            )[i] == pattern[i] by {
                if i < "fn "@.len() {
                    assert(inner.subrange(at, at + "fn "@.len())[i] == "fn "@[i]);
                } else if i < "fn "@.len() + name.len() {
                    assert(rest[i - "fn "@.len()] == name[i - "fn "@.len()]);
                } else {
                    let j = i - "fn "@.len() - name.len();
                    assert(rest.subrange(end, end + "("@.len())[j] == "("@[j]);
                }
            }
        }
        assert(occurs_at(inner, pattern, at));
    }
}

/// The line that the search for code stops at, and what lies before it.
proof fn lemma_code_line(lines: Seq<Seq<char>>, from: int)
    requires
        0 <= from <= lines.len(),
    ensures
        from <= code_line_from(lines, from) <= lines.len(),
        forall|j: int|
            from <= j < code_line_from(lines, from) ==> passed_over(trim(#[trigger] lines[j])),
        code_line_from(lines, from) < lines.len() ==> !passed_over(
            trim(lines[code_line_from(lines, from)]),
        ),
    decreases lines.len() - from,
{
    if from < lines.len() && passed_over(trim(lines[from])) {
        lemma_code_line(lines, from + 1);
    }
}

/// Every name that a scan for declared tests finds begins with the prefix, and
/// the source declares a test of that name.
pub proof fn lemma_declared_names_are_declared(source: Seq<char>, prefix: Seq<char>)
    ensures
        forall|k: int|
            0 <= k < declared_names(source, prefix).len() ==> {
                &&& occurs_at(#[trigger] declared_names(source, prefix)[k], prefix, 0)
                &&& declares(lines(source), declared_names(source, prefix)[k])
            },
{
    lemma_names_up_to_are_declared(lines(source), lines(source).len() as int, prefix);
}

proof fn lemma_names_up_to_are_declared(lines: Seq<Seq<char>>, count: int, prefix: Seq<char>)
    requires
        0 <= count <= lines.len(),
    ensures
        forall|k: int|
            0 <= k < names_up_to(lines, count, prefix).len() ==> {
                &&& occurs_at(#[trigger] names_up_to(lines, count, prefix)[k], prefix, 0)
                &&& declares(lines, names_up_to(lines, count, prefix)[k])
            },
    decreases count,
{
    if count > 0 {
        lemma_names_up_to_are_declared(lines, count - 1, prefix);
        let at = count - 1;
        if test_attribute(trim(lines[at])) {
            if let Some(name) = name_below(lines, at) {
                let below = code_line_from(lines, at + 1);
                lemma_code_line(lines, at + 1);
                lemma_declared_name_is_declared(bare_code(lines[below]));
                assert(test_attribute(trim(lines[at])));
                assert(attribute_above(lines, below));
                assert(contains(bare_code(lines[below]), declaration(name)));
                assert(declares(lines, name));
            }
        }
        let before = names_up_to(lines, at, prefix);
        let after = names_up_to(lines, count, prefix);
        assert forall|k: int| 0 <= k < after.len() implies {
            &&& occurs_at(#[trigger] after[k], prefix, 0)
            &&& declares(lines, after[k])
        } by {
            if k < before.len() {
                assert(after[k] == before[k]);
            }
        }
    }
}

/// A source without the attribute of a test declares no test, whatever names
/// it mentions.
pub proof fn lemma_no_attribute_no_test(source: Seq<char>, name: Seq<char>, prefix: Seq<char>)
    requires
        forall|i: int|
            0 <= i < lines(source).len() ==> !test_attribute(trim(#[trigger] lines(source)[i])),
    ensures
        !declares(lines(source), name),
        declared_names(source, prefix) == Seq::<Seq<char>>::empty(),
{
    let all = lines(source);
    assert forall|at: int| 0 <= at < all.len() implies !attribute_above(all, at) by {
        if attribute_above(all, at) {
            let k = choose|k: int|
                0 <= k < at && test_attribute(trim(#[trigger] all[k])) && forall|j: int|
                    k < j < at ==> passed_over(trim(#[trigger] all[j]));
            assert(!test_attribute(trim(all[k])));
        }
    }
    lemma_no_names_up_to(all, all.len() as int, prefix);
}

proof fn lemma_no_names_up_to(lines: Seq<Seq<char>>, count: int, prefix: Seq<char>)
    requires
        0 <= count <= lines.len(),
        forall|i: int| 0 <= i < lines.len() ==> !test_attribute(trim(#[trigger] lines[i])),
    ensures
        names_up_to(lines, count, prefix) == Seq::<Seq<char>>::empty(),
    decreases count,
{
    if count > 0 {
        lemma_no_names_up_to(lines, count - 1, prefix);
        assert(!test_attribute(trim(lines[count - 1])));
    }
}

/// A line that is a comment uses nothing and declares nothing, whatever it
/// says.
pub proof fn lemma_comment_uses_nothing(line: Seq<char>, needle: Seq<char>)
    requires
        occurs_at(line, "//"@, 0),
    ensures
        !uses(code_part(line), needle),
        !contains(bare_code(line), declaration(needle)),
{
    reveal_strlit("//");
    reveal_strlit("(");
    reveal_strlit("(\"");
    reveal_strlit("\")");
    reveal_strlit("fn ");
    assert(!unpaired(line));
    assert(comment_start(line, 0, false) == 0);
    assert(code_part(line).len() == 0);
    assert(bare_code(line).len() == 0);
}

/// The attribute of a test is `#[test]`, or begins with `#[tokio::test`,
/// character by character.
pub proof fn lemma_test_attribute_by_character(line: Seq<char>)
    ensures
        test_attribute(line) <==> {
            ||| line =~= seq!['#', '[', 't', 'e', 's', 't', ']']
            ||| line.len() >= 13 && line.take(13) =~= seq![
                '#',
                '[',
                't',
                'o',
                'k',
                'i',
                'o',
                ':',
                ':',
                't',
                'e',
                's',
                't',
            ]
        },
{
    reveal_strlit("#[test]");
    reveal_strlit("#[tokio::test");
    assert("#[test]"@ =~= seq!['#', '[', 't', 'e', 's', 't', ']']);
    assert("#[tokio::test"@ =~= seq!['#', '[', 't', 'o', 'k', 'i', 'o', ':', ':', 't', 'e', 's', 't']);
    if line.len() >= 13 {
        assert(line.subrange(0, 13) =~= line.take(13));
    }
}

/// The lines that are passed over are empty or begin with two slashes or with
/// an attribute's two characters; a test is declared by `fn`, a space, its name
/// and an opening bracket.
pub proof fn lemma_passed_over_by_character(line: Seq<char>, name: Seq<char>)
    ensures
        passed_over(line) <==> {
            ||| line.len() == 0
            ||| line.len() >= 2 && line[0] == '/' && line[1] == '/'
            ||| line.len() >= 2 && line[0] == '#' && line[1] == '['
        },
        declaration(name) =~= seq!['f', 'n', ' '] + name + seq!['('],
{
    reveal_strlit("//");
    reveal_strlit("#[");
    reveal_strlit("fn ");
    reveal_strlit("(");
    crate::text::lemma_pattern_by_character(line, "//"@, 0);
    crate::text::lemma_pattern_by_character(line, "#["@, 0);
    assert("//"@[0] == '/' && "//"@[1] == '/');
    assert("#["@[0] == '#' && "#["@[1] == '[');
    assert("fn "@ =~= seq!['f', 'n', ' ']);
    assert("("@ =~= seq!['(']);
}

/// Whether two slashes stand at a place.
pub open spec fn slashes_at(line: Seq<char>, at: int) -> bool {
    0 <= at && at + 2 <= line.len() && line[at] == '/' && line[at + 1] == '/'
}

proof fn lemma_slashes(line: Seq<char>, at: int)
    requires
        0 <= at,
    ensures
        occurs_at(line, "//"@, at) <==> slashes_at(line, at),
{
    reveal_strlit("//");
    crate::text::lemma_pattern_by_character(line, "//"@, at);
    assert("//"@[0] == '/' && "//"@[1] == '/');
}

proof fn lemma_no_character_literal(line: Seq<char>, at: int)
    requires
        0 <= at < line.len(),
        line[at] != '\'',
    ensures
        !occurs_at(line, "'\"'"@, at),
        !occurs_at(line, "'\\\"'"@, at),
{
    reveal_strlit("'\"'");
    reveal_strlit("'\\\"'");
    crate::text::lemma_pattern_by_character(line, "'\"'"@, at);
    crate::text::lemma_pattern_by_character(line, "'\\\"'"@, at);
    assert("'\"'"@[0] == '\'');
    assert("'\\\"'"@[0] == '\'');
}

/// Outside a string literal two slashes begin the comment; any other character
/// but a quote is code.
pub proof fn lemma_code_by_character(line: Seq<char>, at: int)
    requires
        0 <= at < line.len(),
    ensures
        slashes_at(line, at) ==> comment_start(line, at, false) == at && bare_from(
            line,
            at,
            false,
        ).len() == 0 && !ends_quoted(line, at, false),
        !slashes_at(line, at) && line[at] != '"' && line[at] != '\'' ==> comment_start(
            line,
            at,
            false,
        ) == comment_start(line, at + 1, false) && bare_from(line, at, false) =~= seq![line[at]]
            + bare_from(line, at + 1, false) && ends_quoted(line, at, false) == ends_quoted(
            line,
            at + 1,
            false,
        ),
{
    lemma_slashes(line, at);
    if line[at] != '\'' {
        lemma_no_character_literal(line, at);
    }
}

proof fn lemma_inside_a_string(line: Seq<char>, from: int, end: int)
    requires
        0 <= from <= end < line.len(),
        line[end] == '"',
        forall|i: int| from <= i < end ==> #[trigger] line[i] != '"' && line[i] != '\\',
    ensures
        comment_start(line, from, true) == comment_start(line, end + 1, false),
        bare_from(line, from, true) =~= seq!['"'] + bare_from(line, end + 1, false),
        ends_quoted(line, from, true) == ends_quoted(line, end + 1, false),
    decreases end - from,
{
    if from < end {
        lemma_inside_a_string(line, from + 1, end);
    }
}

/// Of a string literal only the quotes are left, whatever stands between them:
/// two slashes there begin no comment.
pub proof fn lemma_string_is_left_out(line: Seq<char>, from: int, end: int)
    requires
        0 <= from < end < line.len(),
        line[from] == '"',
        line[end] == '"',
        forall|i: int| from < i < end ==> #[trigger] line[i] != '"' && line[i] != '\\',
    ensures
        comment_start(line, from, false) == comment_start(line, end + 1, false),
        bare_from(line, from, false) =~= seq!['"', '"'] + bare_from(line, end + 1, false),
        ends_quoted(line, from, false) == ends_quoted(line, end + 1, false),
{
    lemma_slashes(line, from);
    lemma_no_character_literal(line, from);
    lemma_inside_a_string(line, from + 1, end);
}

/// In a string literal a backslash takes the next character with it; outside, a
/// quote that is a character literal, with a backslash or without, opens no
/// string.
pub proof fn lemma_escapes_and_character_literals(line: Seq<char>, at: int)
    requires
        0 <= at,
    ensures
        at + 2 <= line.len() && line[at] == '\\' ==> {
            &&& comment_start(line, at, true) == comment_start(line, at + 2, true)
            &&& bare_from(line, at, true) == bare_from(line, at + 2, true)
            &&& ends_quoted(line, at, true) == ends_quoted(line, at + 2, true)
        },
        at + 3 <= line.len() && line[at] == '\'' && line[at + 1] == '"' && line[at + 2] == '\''
            ==> {
            &&& comment_start(line, at, false) == comment_start(line, at + 3, false)
            &&& bare_from(line, at, false) == seq!['\''] + bare_from(line, at + 3, false)
            &&& ends_quoted(line, at, false) == ends_quoted(line, at + 3, false)
        },
        at + 4 <= line.len() && line[at] == '\'' && line[at + 1] == '\\' && line[at + 2] == '"'
            && line[at + 3] == '\'' ==> {
            &&& comment_start(line, at, false) == comment_start(line, at + 4, false)
            &&& bare_from(line, at, false) == seq!['\''] + bare_from(line, at + 4, false)
            &&& ends_quoted(line, at, false) == ends_quoted(line, at + 4, false)
        },
{
    reveal_strlit("'\"'");
    reveal_strlit("'\\\"'");
    lemma_slashes(line, at);
    crate::text::lemma_pattern_by_character(line, "'\"'"@, at);
    crate::text::lemma_pattern_by_character(line, "'\\\"'"@, at);
    assert("'\"'"@ =~= seq!['\'', '"', '\'']);
    assert("'\\\"'"@ =~= seq!['\'', '\\', '"', '\'']);
}

proof fn lemma_plain_line_from(line: Seq<char>, from: int, end: int)
    requires
        0 <= from <= end <= line.len(),
        forall|i: int| 0 <= i < line.len() ==> #[trigger] line[i] != '"' && line[i] != '\'',
        forall|i: int| from <= i < end ==> !#[trigger] slashes_at(line, i),
        end < line.len() ==> slashes_at(line, end),
    ensures
        comment_start(line, from, false) == end,
        bare_from(line, from, false) =~= line.subrange(from, end),
        !ends_quoted(line, from, false),
    decreases end - from,
{
    if from < line.len() {
        assert(line[from] != '"');
        lemma_code_by_character(line, from);
    }
    if from < end {
        assert(!slashes_at(line, from));
        lemma_plain_line_from(line, from + 1, end);
    }
}

/// The code of a line without quotes is what stands before its first two
/// slashes, or all of it where there are none.
pub proof fn lemma_code_of_a_plain_line(line: Seq<char>, end: int)
    requires
        0 <= end <= line.len(),
        forall|i: int| 0 <= i < line.len() ==> #[trigger] line[i] != '"' && line[i] != '\'',
        forall|i: int| 0 <= i < end ==> !#[trigger] slashes_at(line, i),
        end < line.len() ==> slashes_at(line, end),
    ensures
        code_part(line) =~= line.take(end),
        bare_code(line) =~= line.take(end),
{
    lemma_plain_line_from(line, 0, end);
}

/// Where the quotes of a line do not pair up, its code is all that stands before
/// its first two slashes.
pub proof fn lemma_code_of_an_unpaired_line(line: Seq<char>, end: int)
    requires
        ends_quoted(line, 0, false),
        0 <= end <= line.len(),
        forall|i: int| 0 <= i < end ==> !#[trigger] slashes_at(line, i),
        end < line.len() ==> slashes_at(line, end),
    ensures
        code_part(line) =~= line.take(end),
        bare_code(line) =~= line.take(end),
{
    lemma_first_from(line, "//"@, 0);
    reveal_strlit("//");
    match first(line, "//"@) {
        Some(at) => {
            lemma_slashes(line, at);
            if end < at {
                lemma_slashes(line, end);
                assert(occurs_at(line, "//"@, end));
            }
            if at < end {
                assert(slashes_at(line, at));
            }
        },
        None => {
            if end < line.len() {
                lemma_slashes(line, end);
                assert(occurs_at(line, "//"@, end));
            }
        },
    }
}

/// A needle is used where an opening bracket follows it, or where it stands in
/// quotes in brackets; code without an opening bracket uses nothing.
pub proof fn lemma_uses_by_character(before: Seq<char>, needle: Seq<char>, behind: Seq<char>)
    ensures
        uses(before + needle + seq!['('] + behind, needle),
        uses(before + seq!['(', '"'] + needle + seq!['"', ')'] + behind, needle),
        (forall|i: int| 0 <= i < before.len() ==> #[trigger] before[i] != '(') ==> !uses(
            before,
            needle,
        ),
{
    reveal_strlit("(");
    reveal_strlit("(\"");
    reveal_strlit("\")");
    assert("("@ =~= seq!['(']);
    assert("(\""@ =~= seq!['(', '"']);
    assert("\")"@ =~= seq!['"', ')']);
    let called = before + needle + seq!['('] + behind;
    let call = needle + "("@;
    assert(called.subrange(before.len() as int, (before.len() + call.len()) as int) =~= call);
    assert(occurs_at(called, call, before.len() as int));
    let handed = before + seq!['(', '"'] + needle + seq!['"', ')'] + behind;
    let argument = "(\""@ + needle + "\")"@;
    assert(handed.subrange(before.len() as int, (before.len() + argument.len()) as int)
        =~= argument);
    assert(occurs_at(handed, argument, before.len() as int));
    if forall|i: int| 0 <= i < before.len() ==> #[trigger] before[i] != '(' {
        assert forall|at: int| !occurs_at(before, call, at) by {
            if occurs_at(before, call, at) {
                let part = before.subrange(at, at + call.len());
                assert(part[needle.len() as int] == call[needle.len() as int]);
                assert(before[at + needle.len()] == '(');
            }
        }
        assert forall|at: int| !occurs_at(before, argument, at) by {
            if occurs_at(before, argument, at) {
                let part = before.subrange(at, at + argument.len());
                assert(part[0] == argument[0]);
                assert(before[at] == '(');
            }
        }
    }
}

/// What stands before a character that a text holds once is what comes before
/// its first occurrence.
proof fn lemma_split_at_bracket(name: Seq<char>, behind: Seq<char>)
    requires
        forall|i: int| 0 <= i < name.len() ==> #[trigger] name[i] != '(',
    ensures
        split_once(name + seq!['('] + behind, "("@) matches Some((before, _)) && before == name,
{
    reveal_strlit("(");
    assert("("@ =~= seq!['(']);
    let rest = name + seq!['('] + behind;
    let end = name.len() as int;
    assert(rest.subrange(end, end + 1) =~= "("@);
    assert(occurs_at(rest, "("@, end));
    lemma_first_from(rest, "("@, 0);
    let at = first(rest, "("@)->0;
    if at < end {
        assert(rest.subrange(at, at + 1)[0] == '(');
        assert(name[at] == '(');
    }
    assert(rest.subrange(0, end) =~= name);
}

/// A name that code declares stands between `fn` with a space and an opening
/// bracket; neither stands earlier.
pub proof fn lemma_declared_name_by_character(
    code: Seq<char>,
    start: int,
    name: Seq<char>,
    behind: Seq<char>,
)
    requires
        0 <= start,
        start + 3 <= code.len(),
        code[start] == 'f' && code[start + 1] == 'n' && code[start + 2] == ' ',
        code.skip(start + 3) == name + seq!['('] + behind,
        forall|at: int|
            0 <= at < start && #[trigger] code[at] == 'f' ==> code[at + 1] != 'n' || code[at + 2]
                != ' ',
        forall|i: int| 0 <= i < name.len() ==> #[trigger] name[i] != '(',
    ensures
        declared_name(code) == Some(name),
{
    reveal_strlit("fn ");
    assert("fn "@ =~= seq!['f', 'n', ' ']);
    assert(code.subrange(start, start + 3) =~= "fn "@);
    assert(occurs_at(code, "fn "@, start));
    lemma_first_from(code, "fn "@, 0);
    let at = first(code, "fn "@)->0;
    if at < start {
        let part = code.subrange(at, at + 3);
        assert(part[0] == code[at] && part[1] == code[at + 1] && part[2] == code[at + 2]);
    }
    assert(code.subrange(start + 3, code.len() as int) =~= code.skip(start + 3));
    lemma_split_at_bracket(name, behind);
}

/// Whether the attribute on one line belongs to the name on another: only lines
/// that are passed over stand between the two.
pub open spec fn names_test(lines: Seq<Seq<char>>, above: int, at: int, name: Seq<char>) -> bool {
    &&& 0 <= above < at < lines.len()
    &&& test_attribute(trim(lines[above]))
    &&& forall|j: int| above < j < at ==> passed_over(trim(#[trigger] lines[j]))
    &&& !passed_over(trim(lines[at]))
    &&& declared_name(bare_code(lines[at])) == Some(name)
}

proof fn lemma_code_line_is(lines: Seq<Seq<char>>, from: int, at: int)
    requires
        0 <= from <= at < lines.len(),
        forall|j: int| from <= j < at ==> passed_over(trim(#[trigger] lines[j])),
        !passed_over(trim(lines[at])),
    ensures
        code_line_from(lines, from) == at,
    decreases at - from,
{
    if from < at {
        assert(passed_over(trim(lines[from])));
        lemma_code_line_is(lines, from + 1, at);
    }
}

proof fn lemma_named_tests_up_to(lines: Seq<Seq<char>>, count: int, prefix: Seq<char>, name: Seq<char>)
    requires
        count <= lines.len(),
    ensures
        names_up_to(lines, count, prefix).contains(name) <==> occurs_at(name, prefix, 0) && exists|
            above: int,
            at: int,
        |
            above < count && #[trigger] names_test(lines, above, at, name),
    decreases count,
{
    if count > 0 {
        lemma_named_tests_up_to(lines, count - 1, prefix, name);
        let before = names_up_to(lines, count - 1, prefix);
        let all = names_up_to(lines, count, prefix);
        let above = count - 1;
        lemma_code_line(lines, count);
        let below = code_line_from(lines, count);
        let here = test_attribute(trim(lines[above])) && name_below(lines, above) == Some(name)
            && occurs_at(name, prefix, 0);
        assert(all.contains(name) <==> before.contains(name) || here) by {
            if before.contains(name) {
                let i = choose|i: int| 0 <= i < before.len() && before[i] == name;
                assert(all[i] == name);
            }
            if here {
                assert(all[before.len() as int] == name);
            }
            if all.contains(name) && !before.contains(name) {
                let i = choose|i: int| 0 <= i < all.len() && all[i] == name;
                if i < before.len() {
                    assert(before[i] == name);
                }
            }
        }
        if here {
            assert(names_test(lines, above, below, name));
        }
        if exists|k: int, at: int| k < count && #[trigger] names_test(lines, k, at, name) {
            let (k, at) = choose|k: int, at: int|
                k < count && #[trigger] names_test(lines, k, at, name);
            if k == above {
                lemma_code_line_is(lines, count, at);
            }
        }
    }
}

/// The tests of a source are exactly the names with the prefix that stand on the
/// first code line below a test's attribute.
pub proof fn lemma_declared_tests_exactly(source: Seq<char>, prefix: Seq<char>, name: Seq<char>)
    ensures
        declared_names(source, prefix).contains(name) <==> occurs_at(name, prefix, 0) && exists|
            above: int,
            at: int,
        |
            #[trigger] names_test(lines(source), above, at, name),
{
    let all = lines(source);
    lemma_named_tests_up_to(all, all.len() as int, prefix, name);
}

proof fn lemma_first_line_from(lines: Seq<Seq<char>>, pattern: Seq<char>, from: int, at: int)
    requires
        0 <= from <= at < lines.len(),
        contains(bare_code(lines[at]), pattern),
        forall|i: int| from <= i < at ==> !contains(bare_code(#[trigger] lines[i]), pattern),
    ensures
        first_line_with(lines, pattern, from) == at,
    decreases at - from,
{
    if from < at {
        assert(!contains(bare_code(lines[from]), pattern));
        lemma_first_line_from(lines, pattern, from + 1, at);
    }
}

proof fn lemma_item_end_is(lines: Seq<Seq<char>>, from: int, last: int)
    requires
        0 <= from <= last < lines.len(),
        lines[last] =~= seq!['}'],
        forall|i: int| from <= i < last ==> #[trigger] lines[i] != seq!['}'],
    ensures
        item_end(lines, from) == last + 1,
    decreases last - from,
{
    reveal_strlit("}");
    assert("}"@ =~= seq!['}']);
    if from < last {
        assert(lines[from] != seq!['}']);
        lemma_item_end_is(lines, from + 1, last);
    }
}

/// The body of a test begins on the first line whose code declares it and ends
/// with the first line from there on that is a closing brace and nothing else.
pub proof fn lemma_body_from_line_to_line(
    lines: Seq<Seq<char>>,
    name: Seq<char>,
    start: int,
    last: int,
)
    requires
        0 <= start <= last < lines.len(),
        contains(bare_code(lines[start]), seq!['f', 'n', ' '] + name + seq!['(']),
        forall|i: int|
            0 <= i < start ==> !contains(
                bare_code(#[trigger] lines[i]),
                seq!['f', 'n', ' '] + name + seq!['('],
            ),
        lines[last] =~= seq!['}'],
        forall|i: int| start <= i < last ==> #[trigger] lines[i] != seq!['}'],
    ensures
        first_line_with(lines, declaration(name), 0) == start,
        item_end(lines, start) == last + 1,
{
    lemma_passed_over_by_character(Seq::empty(), name);
    lemma_first_line_from(lines, declaration(name), 0, start);
    lemma_item_end_is(lines, start, last);
}

/// Lines are put together with one line feed between two of them.
pub proof fn lemma_joined_line_by_line(lines: Seq<Seq<char>>, line: Seq<char>)
    ensures
        joined(Seq::empty()).len() == 0,
        joined(seq![line]) == line,
        lines.len() > 0 ==> joined(lines.push(line)) =~= joined(lines) + seq!['\n'] + line,
{
    reveal_strlit("\n");
    assert("\n"@ =~= seq!['\n']);
    if lines.len() > 0 {
        assert(lines.push(line).drop_last() =~= lines);
    }
}

} // verus!
