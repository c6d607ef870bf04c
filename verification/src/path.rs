//! File names and stems of Windows paths, as sequences of characters.
//!
//! A path is an optional prefix followed by components. The prefix is a
//! drive (`C:`), a server and a share (`\\server\share`), a device
//! (`\\.\COM1`), or one of the verbatim forms that begin with `\\?\`. The
//! components are parted by `\` or `/`; in a verbatim path by `\` alone.
//! Empty components are passed over, and so is the component `.` unless the
//! path is verbatim. The components `.` and `..` are no file names.

use crate::text::chars_of;
use vstd::prelude::*;
use vstd::string::StrSliceExecFns;

verus! {

/// Whether `c` parts the components of a path: `\` always does, `/` does
/// except in a verbatim path.
pub open spec fn parts(c: char, verbatim: bool) -> bool {
    c == '\\' || (c == '/' && !verbatim)
}

/// A character that parts the components of an ordinary path: `\` or `/`.
pub open spec fn is_separator(c: char) -> bool {
    parts(c, false)
}

/// A letter of the ASCII alphabet, which can name a drive.
pub open spec fn is_drive_letter(c: char) -> bool {
    ('a' as u32 <= c as u32 <= 'z' as u32) || ('A' as u32 <= c as u32 <= 'Z' as u32)
}

/// A verbatim path begins with exactly `\\?\`.
pub open spec fn is_verbatim(path: Seq<char>) -> bool {
    path.len() >= 4 && path[0] == '\\' && path[1] == '\\' && path[2] == '?' && path[3] == '\\'
}

/// How many characters of `text` stand from `from` on before the next
/// separator or the end.
pub open spec fn run_len(text: Seq<char>, from: int, verbatim: bool) -> nat
    decreases text.len() - from,
{
    if from < 0 || from >= text.len() || parts(text[from], verbatim) {
        0
    } else {
        1 + run_len(text, from + 1, verbatim)
    }
}

/// The length of a server and its share from `from` on: the run that begins
/// there and, where a run that is not empty follows it after one separator,
/// that separator and that run too.
pub open spec fn pair_len(text: Seq<char>, from: int, verbatim: bool) -> nat {
    let server = run_len(text, from, verbatim);
    let share = run_len(text, from + server + 1, verbatim);
    if share > 0 {
        server + 1 + share
    } else {
        server
    }
}

/// The length of the prefix of `path`.
///
/// - A verbatim path has `\\?\` and what follows it for its prefix: after
///   `UNC` and a separator a server and a share; else a drive letter and a
///   colon where the path ends there or a separator follows; else one run.
/// - Any other path that begins with two separators has, after `.` and a
///   separator, the name of a device for its prefix; else a server and a
///   share, where neither is empty.
/// - Any other path that begins with a drive letter and a colon has these two.
/// - Every other path has no prefix.
pub open spec fn prefix_len(path: Seq<char>) -> nat {
    if is_verbatim(path) {
        if path.len() >= 8 && path[4] == 'U' && path[5] == 'N' && path[6] == 'C' && is_separator(
            path[7],
        ) {
            8 + pair_len(path, 8, true)
        } else if path.len() >= 6 && is_drive_letter(path[4]) && path[5] == ':' && (path.len() == 6
            || is_separator(path[6])) {
            6
        } else {
            4 + run_len(path, 4, true)
        }
    } else if path.len() >= 2 && is_separator(path[0]) && is_separator(path[1]) {
        if path.len() >= 4 && path[2] == '.' && is_separator(path[3]) {
            4 + run_len(path, 4, false)
        } else if run_len(path, 2, false) > 0 && pair_len(path, 2, false) > run_len(
            path,
            2,
            false,
        ) {
            2 + pair_len(path, 2, false)
        } else {
            0
        }
    } else if path.len() >= 2 && is_drive_letter(path[0]) && path[1] == ':' {
        2
    } else {
        0
    }
}

/// What follows the last separator of `text`: all of `text` where it has no
/// separator, nothing where it ends in one.
pub open spec fn trailing_run(text: Seq<char>, verbatim: bool) -> Seq<char>
    decreases text.len(),
{
    if text.len() == 0 || parts(text.last(), verbatim) {
        Seq::empty()
    } else {
        trailing_run(text.drop_last(), verbatim).push(text.last())
    }
}

/// The last component of `text`; empty where there is none. Separators at
/// the end are passed over, and so are components `.` at the end unless the
/// path is verbatim.
pub open spec fn last_component(text: Seq<char>, verbatim: bool) -> Seq<char>
    decreases text.len(),
{
    if text.len() == 0 {
        Seq::empty()
    } else if parts(text.last(), verbatim) || (!verbatim && trailing_run(text, verbatim)
        == seq!['.']) {
        last_component(text.drop_last(), verbatim)
    } else {
        trailing_run(text, verbatim)
    }
}

/// The file name of `path`: the last component behind the prefix. There is
/// none where no component stands behind the prefix, and none where the last
/// component is `..` or `.`.
pub open spec fn file_name(path: Seq<char>) -> Option<Seq<char>> {
    let last = last_component(path.skip(prefix_len(path) as int), is_verbatim(path));
    if last.len() == 0 || last == seq!['.', '.'] || last == seq!['.'] {
        None
    } else {
        Some(last)
    }
}

/// What stands before the last `.` of `name`, if it has one.
pub open spec fn before_last_dot(name: Seq<char>) -> Option<Seq<char>>
    decreases name.len(),
{
    if name.len() == 0 {
        None
    } else if name.last() == '.' {
        Some(name.drop_last())
    } else {
        before_last_dot(name.drop_last())
    }
}

/// A file name without its extension: what stands before the last `.`,
/// unless there is no `.` or nothing stands before it; then the whole name.
pub open spec fn stem(name: Seq<char>) -> Seq<char> {
    match before_last_dot(name) {
        Some(front) => if front.len() == 0 {
            name
        } else {
            front
        },
        None => name,
    }
}

/// The file name of `path` without its extension; empty where `path` has no
/// file name.
pub open spec fn file_stem(path: Seq<char>) -> Seq<char> {
    match file_name(path) {
        Some(name) => stem(name),
        None => Seq::empty(),
    }
}

/// The trailing run of a text is its longest tail free of separators.
pub proof fn lemma_trailing_run(text: Seq<char>, start: int, verbatim: bool)
    requires
        0 <= start <= text.len(),
        forall|i: int| start <= i < text.len() ==> !parts(text[i], verbatim),
        start == 0 || parts(text[start - 1], verbatim),
    ensures
        trailing_run(text, verbatim) == text.subrange(start, text.len() as int),
    decreases text.len() - start,
{
    if start == text.len() {
        assert(text.subrange(start, text.len() as int) =~= Seq::<char>::empty());
    } else {
        let front = text.drop_last();
        assert forall|i: int| start <= i < front.len() implies !parts(front[i], verbatim) by {
            assert(front[i] == text[i]);
        }
        if start > 0 {
            assert(front[start - 1] == text[start - 1]);
        }
        lemma_trailing_run(front, start, verbatim);
        assert(front.subrange(start, front.len() as int).push(text.last()) =~= text.subrange(
            start,
            text.len() as int,
        ));
    }
}

/// A name whose last `.` stands at `dot` is split there.
pub proof fn lemma_before_last_dot_at(name: Seq<char>, dot: int)
    requires
        0 <= dot < name.len(),
        name[dot] == '.',
        forall|i: int| dot < i < name.len() ==> name[i] != '.',
    ensures
        before_last_dot(name) == Some(name.subrange(0, dot)),
    decreases name.len() - dot,
{
    if dot == name.len() - 1 {
        assert(name.drop_last() =~= name.subrange(0, dot));
    } else {
        let front = name.drop_last();
        assert(front[dot] == name[dot]);
        assert forall|i: int| dot < i < front.len() implies front[i] != '.' by {
            assert(front[i] == name[i]);
        }
        lemma_before_last_dot_at(front, dot);
        assert(front.subrange(0, dot) =~= name.subrange(0, dot));
    }
}

/// A name without a `.` is not split.
pub proof fn lemma_before_last_dot_none(name: Seq<char>)
    requires
        forall|i: int| 0 <= i < name.len() ==> name[i] != '.',
    ensures
        before_last_dot(name) is None,
    decreases name.len(),
{
    if name.len() > 0 {
        let front = name.drop_last();
        assert(name.last() == name[name.len() - 1]);
        assert forall|i: int| 0 <= i < front.len() implies front[i] != '.' by {
            assert(front[i] == name[i]);
        }
        lemma_before_last_dot_none(front);
    }
}

/// A run reaches at most to the end of the text.
pub proof fn lemma_run_len_bound(text: Seq<char>, from: int, verbatim: bool)
    requires
        0 <= from <= text.len(),
    ensures
        from + run_len(text, from, verbatim) <= text.len(),
    decreases text.len() - from,
{
    if from < text.len() && !parts(text[from], verbatim) {
        lemma_run_len_bound(text, from + 1, verbatim);
    }
}

/// A server and its share reach at most to the end of the text.
pub proof fn lemma_pair_len_bound(text: Seq<char>, from: int, verbatim: bool)
    requires
        0 <= from <= text.len(),
    ensures
        from + pair_len(text, from, verbatim) <= text.len(),
{
    let server = run_len(text, from, verbatim);
    lemma_run_len_bound(text, from, verbatim);
    if from + server + 1 <= text.len() {
        lemma_run_len_bound(text, from + server + 1, verbatim);
    }
}

/// The prefix of a path is a part of it.
pub proof fn lemma_prefix_len_bound(path: Seq<char>)
    ensures
        prefix_len(path) <= path.len(),
{
    if path.len() >= 8 {
        lemma_pair_len_bound(path, 8, true);
    }
    if path.len() >= 4 {
        lemma_run_len_bound(path, 4, true);
        lemma_run_len_bound(path, 4, false);
    }
    if path.len() >= 2 {
        lemma_pair_len_bound(path, 2, false);
    }
}

/// A separator put behind a path changes its file name no more than it
/// changes the prefix: `C:\bin\` has the file name of `C:\bin`.
pub proof fn lemma_trailing_separator_is_passed_over(path: Seq<char>, c: char)
    requires
        parts(c, is_verbatim(path)),
        is_verbatim(path.push(c)) == is_verbatim(path),
        prefix_len(path.push(c)) == prefix_len(path),
    ensures
        file_name(path.push(c)) == file_name(path),
        file_stem(path.push(c)) == file_stem(path),
{
    lemma_prefix_len_bound(path);
    let first = prefix_len(path) as int;
    assert(path.push(c).skip(first) =~= path.skip(first).push(c));
    assert(path.skip(first).push(c).drop_last() =~= path.skip(first));
}

/// In a path that is not verbatim, a component `.` put behind a separator
/// changes the file name no more than the separator did: `C:\bin\.` has the
/// file name of `C:\bin`. (Where the `.` would become a part of the prefix
/// it is no component; the first two conditions leave that out.)
pub proof fn lemma_trailing_dot_is_passed_over(path: Seq<char>)
    requires
        prefix_len(path.push('.')) == prefix_len(path),
        prefix_len(path) < path.len(),
        !is_verbatim(path),
        is_separator(path.last()),
    ensures
        file_name(path.push('.')) == file_name(path),
        file_stem(path.push('.')) == file_stem(path),
{
    let first = prefix_len(path) as int;
    let body = path.skip(first);
    let longer = path.push('.').skip(first);
    assert(path.push('.')[0] == path[0]);
    assert(!is_verbatim(path.push('.'))) by {
        if path.len() >= 4 {
            assert(path.push('.')[1] == path[1]);
            assert(path.push('.')[2] == path[2]);
            assert(path.push('.')[3] == path[3]);
        } else if path.len() == 3 {
            assert(path.push('.')[3] == '.');
        }
    }
    assert(longer =~= body.push('.'));
    assert(body.last() == path.last());
    assert(longer[longer.len() - 2] == body.last());
    lemma_trailing_run(longer, longer.len() - 1, false);
    assert(longer.subrange(longer.len() - 1, longer.len() as int) =~= seq!['.']);
    assert(longer.drop_last() =~= body);
}

/// A path that ends in the component `..` has no file name, and so an empty
/// stem: `..`, `C:..` and `C:\bin\..` have none.
pub proof fn lemma_parent_has_no_file_name(front: Seq<char>)
    requires
        ({
            let path = front + seq!['.', '.'];
            prefix_len(path) <= front.len() && (front.len() == prefix_len(path) || parts(
                front.last(),
                is_verbatim(path),
            ))
        }),
    ensures
        file_name(front + seq!['.', '.']) is None,
        file_stem(front + seq!['.', '.']) == Seq::<char>::empty(),
{
    let path = front + seq!['.', '.'];
    let verbatim = is_verbatim(path);
    let first = prefix_len(path) as int;
    let body = path.skip(first);
    let start = front.len() - first;
    assert(body.len() == start + 2);
    assert(body[start] == '.');
    assert(body[start + 1] == '.');
    assert forall|i: int| start <= i < body.len() implies !parts(body[i], verbatim) by {}
    if start > 0 {
        assert(body[start - 1] == front.last());
    }
    lemma_trailing_run(body, start, verbatim);
    assert(body.subrange(start, body.len() as int) =~= seq!['.', '.']);
    assert(seq!['.', '.'].len() != seq!['.'].len());
}

/// A drive letter and a colon at the head of a path are its prefix, and no
/// part of its file name: `C:tool.exe` has the file name `tool.exe`.
pub proof fn lemma_drive_is_prefix(drive: char, rest: Seq<char>)
    requires
        is_drive_letter(drive),
    ensures
        prefix_len(seq![drive, ':'] + rest) == 2,
        !is_verbatim(seq![drive, ':'] + rest),
        (seq![drive, ':'] + rest).skip(2) == rest,
{
    let path = seq![drive, ':'] + rest;
    assert(path[0] == drive);
    assert(path[1] == ':');
    assert(path.skip(2) =~= rest);
}

fn parts_char(c: char, verbatim: bool) -> (found: bool)
    ensures
        found == parts(c, verbatim),
{
    c == '\\' || (c == '/' && !verbatim)
}

fn is_drive_letter_char(c: char) -> (found: bool)
    ensures
        found == is_drive_letter(c),
{
    let code: u32 = c as u32;
    (97 <= code && code <= 122) || (65 <= code && code <= 90)
}

/// Tells whether a path is verbatim.
fn starts_verbatim(chars: &Vec<char>) -> (found: bool)
    ensures
        found == is_verbatim(chars@),
{
    chars.len() >= 4 && chars[0] == '\\' && chars[1] == '\\' && chars[2] == '?' && chars[3] == '\\'
}

/// Counts the characters from `from` on that stand before the next separator.
fn run_length(chars: &Vec<char>, from: usize, verbatim: bool) -> (count: usize)
    requires
        from <= chars@.len(),
    ensures
        count == run_len(chars@, from as int, verbatim),
        from + count <= chars@.len(),
{
    let len: usize = chars.len();
    let mut at: usize = from;
    while at < len && !parts_char(chars[at], verbatim)
        invariant
            from <= at <= len == chars@.len(),
            run_len(chars@, from as int, verbatim) == (at - from) + run_len(
                chars@,
                at as int,
                verbatim,
            ),
        decreases len - at,
    {
        at += 1;
    }
    at - from
}

/// Measures a server and its share from `from` on.
fn pair_length(chars: &Vec<char>, from: usize, verbatim: bool) -> (count: usize)
    requires
        from <= chars@.len(),
    ensures
        count == pair_len(chars@, from as int, verbatim),
        from + count <= chars@.len(),
{
    let len: usize = chars.len();
    let server: usize = run_length(chars, from, verbatim);
    if from + server >= len {
        server
    } else {
        let share: usize = run_length(chars, from + server + 1, verbatim);
        if share > 0 {
            server + 1 + share
        } else {
            server
        }
    }
}

/// Measures the prefix of a path.
fn prefix_length(chars: &Vec<char>) -> (count: usize)
    ensures
        count == prefix_len(chars@),
        count <= chars@.len(),
{
    let len: usize = chars.len();
    if starts_verbatim(chars) {
        if len >= 8 && chars[4] == 'U' && chars[5] == 'N' && chars[6] == 'C' && parts_char(
            chars[7],
            false,
        ) {
            8 + pair_length(chars, 8, true)
        } else if len >= 6 && is_drive_letter_char(chars[4]) && chars[5] == ':' && (len == 6
            || parts_char(chars[6], false)) {
            6
        } else {
            4 + run_length(chars, 4, true)
        }
    } else if len >= 2 && parts_char(chars[0], false) && parts_char(chars[1], false) {
        if len >= 4 && chars[2] == '.' && parts_char(chars[3], false) {
            4 + run_length(chars, 4, false)
        } else {
            let server: usize = run_length(chars, 2, false);
            let pair: usize = pair_length(chars, 2, false);
            if server > 0 && pair > server {
                2 + pair
            } else {
                0
            }
        }
    } else if len >= 2 && is_drive_letter_char(chars[0]) && chars[1] == ':' {
        2
    } else {
        0
    }
}

/// Finds where the run of characters without separator that ends at `end`
/// begins, not looking before `low`.
fn run_start(chars: &Vec<char>, low: usize, end: usize, verbatim: bool) -> (start: usize)
    requires
        low <= end <= chars@.len(),
    ensures
        low <= start <= end,
        forall|i: int| start <= i < end ==> !parts(chars@[i], verbatim),
        start == low || parts(chars@[start - 1], verbatim),
{
    let mut start: usize = end;
    while start > low && !parts_char(chars[start - 1], verbatim)
        invariant
            low <= start <= end <= chars@.len(),
            forall|i: int| start <= i < end ==> !parts(chars@[i], verbatim),
        decreases start,
    {
        start -= 1;
    }
    start
}

/// Finds the last component behind the first `first` characters: where it
/// begins and where it ends. The two are equal where there is none.
fn find_last_component(chars: &Vec<char>, first: usize, verbatim: bool) -> (bounds: (usize, usize))
    requires
        first <= chars@.len(),
    ensures
        first <= bounds.0 <= bounds.1 <= chars@.len(),
        last_component(chars@.skip(first as int), verbatim) == chars@.subrange(
            bounds.0 as int,
            bounds.1 as int,
        ),
{
    let len: usize = chars.len();
    let ghost body = chars@.skip(first as int);
    let mut end: usize = len;
    let mut start: usize = len;
    let mut found: bool = false;
    proof {
        assert(body.take(len - first) =~= body);
    }
    while !found && end > first
        invariant
            first <= end <= len == chars@.len(),
            body == chars@.skip(first as int),
            last_component(body, verbatim) == last_component(body.take(end - first), verbatim),
            found ==> first <= start < end && last_component(body, verbatim) == chars@.subrange(
                start as int,
                end as int,
            ),
        decreases end - first + (if found { 0int } else { 1int }),
    {
        start = run_start(chars, first, end, verbatim);
        let ghost text = body.take(end - first);
        proof {
            assert(text.last() == chars@[end - 1]);
            assert forall|i: int| start - first <= i < text.len() implies !parts(
                text[i],
                verbatim,
            ) by {
                assert(text[i] == chars@[first + i]);
            }
            if start > first {
                assert(text[start - first - 1] == chars@[start - 1]);
            }
            lemma_trailing_run(text, start - first, verbatim);
            assert(text.subrange(start - first, text.len() as int) =~= chars@.subrange(
                start as int,
                end as int,
            ));
            assert(text.drop_last() =~= body.take(end - 1 - first));
        }
        if start == end {
            end -= 1;
        } else if !verbatim && end - start == 1 && chars[start] == '.' {
            proof {
                assert(chars@.subrange(start as int, end as int) =~= seq!['.']);
            }
            end -= 1;
        } else {
            proof {
                let run = chars@.subrange(start as int, end as int);
                assert(run[0] == chars@[start as int]);
                assert(!verbatim ==> run != seq!['.']);
            }
            found = true;
        }
    }
    if found {
        (start, end)
    } else {
        proof {
            assert(body.take(0).len() == 0);
            assert(chars@.subrange(end as int, end as int) =~= Seq::<char>::empty());
        }
        (end, end)
    }
}

/// Finds where the stem of the name that stands from `start` to `end` ends.
fn stem_end(chars: &Vec<char>, start: usize, end: usize) -> (stop: usize)
    requires
        start <= end <= chars@.len(),
    ensures
        start <= stop <= end,
        stem(chars@.subrange(start as int, end as int)) == chars@.subrange(
            start as int,
            stop as int,
        ),
{
    let ghost name = chars@.subrange(start as int, end as int);
    let mut dot: usize = end;
    while dot > start && chars[dot - 1] != '.'
        invariant
            start <= dot <= end <= chars@.len(),
            forall|i: int| dot <= i < end ==> chars@[i] != '.',
        decreases dot,
    {
        dot -= 1;
    }
    // `dot` now stands behind the last `.` of the name, or at its start.
    if dot - start > 1 {
        proof {
            assert(name[dot - 1 - start] == chars@[dot - 1]);
            assert forall|i: int| dot - 1 - start < i < name.len() implies name[i] != '.' by {
                assert(name[i] == chars@[start + i]);
            }
            lemma_before_last_dot_at(name, dot - 1 - start);
            assert(name.subrange(0, dot - 1 - start) =~= chars@.subrange(start as int, dot - 1));
        }
        dot - 1
    } else {
        proof {
            if dot == start + 1 {
                assert(name[0] == chars@[start as int]);
                assert forall|i: int| 0 < i < name.len() implies name[i] != '.' by {
                    assert(name[i] == chars@[start + i]);
                }
                lemma_before_last_dot_at(name, 0);
                assert(name.subrange(0, 0).len() == 0);
            } else {
                assert forall|i: int| 0 <= i < name.len() implies name[i] != '.' by {
                    assert(name[i] == chars@[start + i]);
                }
                lemma_before_last_dot_none(name);
            }
        }
        end
    }
}

/// The file name of `path` without its extension; empty where `path` has no
/// file name.
pub fn file_stem_of(path: &str) -> (name: String)
    ensures
        name@ == file_stem(path@),
{
    let chars = chars_of(path);
    let verbatim: bool = starts_verbatim(&chars);
    let first: usize = prefix_length(&chars);
    let (start, end) = find_last_component(&chars, first, verbatim);
    let ghost name = chars@.subrange(start as int, end as int);
    if start == end {
        return String::new();
    }
    proof {
        assert(name[0] == chars@[start as int]);
    }
    if end - start == 2 && chars[start] == '.' && chars[start + 1] == '.' {
        proof {
            assert(name =~= seq!['.', '.']);
        }
        return String::new();
    }
    if end - start == 1 && chars[start] == '.' {
        proof {
            assert(name =~= seq!['.']);
        }
        return String::new();
    }
    proof {
        if name == seq!['.', '.'] {
            assert(name[1] == chars@[start + 1]);
        }
    }
    let stop: usize = stem_end(&chars, start, end);
    String::from_str(path.substring_char(start, stop))
}

} // verus!
