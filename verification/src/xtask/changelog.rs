//! The notes of a release, out of the changelog.
//!
//! A changelog is read line by line. The section of a version starts at the
//! line that begins with `## ` and the version, and ends before the next
//! line that begins with `## `, or with the text. The notes are the lines
//! of the section behind its first; the title is the first line without
//! its mark, behind a `v`.

use vstd::prelude::*;
use crate::text::{chars_of, string_from_chars};

verus! {

/// The mark with which the heading of a version begins.
pub open spec fn heading_mark() -> Seq<char> {
    seq!['#', '#', ' ']
}

/// The place of the first line feed of `text` at or behind `from`; the
/// length of `text` where there is none.
pub open spec fn line_end(text: Seq<char>, from: int) -> int
    decreases text.len() - from,
{
    if from >= text.len() {
        text.len() as int
    } else if text[from] == '\n' {
        from
    } else {
        line_end(text, from + 1)
    }
}

/// The line that `raw` is, where `raw` is what stands before a line feed,
/// if `closed`, or before the end of the text: a carriage return right
/// before the line feed belongs to the line ending, not to the line.
pub open spec fn line_of(raw: Seq<char>, closed: bool) -> Seq<char> {
    if closed && raw.len() > 0 && raw.last() == '\r' {
        raw.drop_last()
    } else {
        raw
    }
}

/// The lines of `text` from place `from` on. Every line feed ends a line,
/// and what stands behind the last line feed is a line too unless it is
/// empty.
pub open spec fn lines_from(text: Seq<char>, from: int) -> Seq<Seq<char>>
    decreases text.len() - from,
{
    if from < 0 || from >= text.len() {
        Seq::empty()
    } else {
        let end = line_end(text, from);
        if from <= end < text.len() {
            seq![line_of(text.subrange(from, end), true)] + lines_from(text, end + 1)
        } else {
            seq![line_of(text.subrange(from, text.len() as int), false)]
        }
    }
}

/// The lines of `text`.
pub open spec fn lines_of(text: Seq<char>) -> Seq<Seq<char>> {
    lines_from(text, 0)
}

/// Whether `line` begins with `prefix`.
pub open spec fn starts_with(line: Seq<char>, prefix: Seq<char>) -> bool {
    prefix.len() <= line.len() && line.take(prefix.len() as int) == prefix
}

/// The lines joined, with a line feed between every two.
pub open spec fn join(lines: Seq<Seq<char>>) -> Seq<char>
    decreases lines.len(),
{
    if lines.len() == 0 {
        Seq::empty()
    } else if lines.len() == 1 {
        lines[0]
    } else {
        join(lines.drop_last()) + seq!['\n'] + lines.last()
    }
}

/// The line without the heading marks that it begins with, however many.
pub open spec fn strip_marks(line: Seq<char>) -> Seq<char>
    decreases line.len(),
{
    if starts_with(line, heading_mark()) {
        strip_marks(line.skip(3))
    } else {
        line
    }
}

/// Why a changelog gives no answer.
#[derive(Debug, Clone, Copy, PartialEq, Eq, Structural)]
pub enum ChangelogError {
    /// A second line begins with the heading of the version.
    DuplicateVersion,
    /// A second heading follows the section of the version.
    SeveralOlderVersions,
}

/// How far the search through the lines has come.
pub enum Scan {
    /// No heading of the version yet.
    Searching,
    /// The heading of the version stands at line `at`; no other heading
    /// has followed.
    Found { at: int },
    /// The heading of the version stands at line `at`, and the next
    /// heading at line `end`.
    Closed { at: int, end: int },
    /// The changelog is not one that the search can answer for.
    Failed(ChangelogError),
}

/// What line `i` makes of the search. The heading of the version may
/// stand once; behind it one more heading may follow, which ends the
/// section, and no second.
pub open spec fn scan_step(state: Scan, line: Seq<char>, i: int, heading: Seq<char>) -> Scan {
    match state {
        Scan::Failed(error) => Scan::Failed(error),
        Scan::Searching => if starts_with(line, heading) {
            Scan::Found { at: i }
        } else {
            Scan::Searching
        },
        Scan::Found { at } => if starts_with(line, heading) {
            Scan::Failed(ChangelogError::DuplicateVersion)
        } else if starts_with(line, heading_mark()) {
            Scan::Closed { at, end: i }
        } else {
            state
        },
        Scan::Closed { at, end } => if starts_with(line, heading) {
            Scan::Failed(ChangelogError::DuplicateVersion)
        } else if starts_with(line, heading_mark()) {
            Scan::Failed(ChangelogError::SeveralOlderVersions)
        } else {
            state
        },
    }
}

/// The search after the first `n` lines.
pub open spec fn scan(lines: Seq<Seq<char>>, heading: Seq<char>, n: nat) -> Scan
    decreases n,
{
    if n == 0 {
        Scan::Searching
    } else {
        scan_step(scan(lines, heading, (n - 1) as nat), lines[n - 1], n - 1, heading)
    }
}

/// The notes and the title of `version` in `changelog`, in this order;
/// nothing where the changelog has no section for the version.
pub open spec fn notes_of(changelog: Seq<char>, version: Seq<char>) -> Result<
    Option<(Seq<char>, Seq<char>)>,
    ChangelogError,
> {
    let lines = lines_of(changelog);
    match scan(lines, heading_mark() + version, lines.len()) {
        Scan::Failed(error) => Err(error),
        Scan::Searching => Ok(None),
        Scan::Found { at } => Ok(
            Some(
                (join(lines.subrange(at + 1, lines.len() as int)), seq!['v'] + strip_marks(lines[at])),
            ),
        ),
        Scan::Closed { at, end } => Ok(
            Some((join(lines.subrange(at + 1, end)), seq!['v'] + strip_marks(lines[at]))),
        ),
    }
}

proof fn lemma_line_end(text: Seq<char>, from: int)
    requires
        0 <= from <= text.len(),
    ensures
        from <= line_end(text, from) <= text.len(),
        line_end(text, from) < text.len() ==> text[line_end(text, from)] == '\n',
        forall|i: int| from <= i < line_end(text, from) ==> text[i] != '\n',
    decreases text.len() - from,
{
    if from < text.len() && text[from] != '\n' {
        lemma_line_end(text, from + 1);
    }
}

/// The views of the lines.
pub open spec fn views(lines: Seq<Vec<char>>) -> Seq<Seq<char>> {
    lines.map_values(|line: Vec<char>| line@)
}

/// Splits a text into its lines.
pub fn split_lines(text: &Vec<char>) -> (lines: Vec<Vec<char>>)
    ensures
        views(lines@) == lines_of(text@),
{
    let mut lines: Vec<Vec<char>> = Vec::new();
    let mut from: usize = 0;
    while from < text.len()
        invariant
            from <= text.len(),
            views(lines@) + lines_from(text@, from as int) == lines_of(text@),
        decreases text.len() - from,
    {
        let mut end: usize = from;
        while end < text.len() && text[end] != '\n'
            invariant
                from <= end <= text.len(),
                line_end(text@, from as int) == line_end(text@, end as int),
            decreases text.len() - end,
        {
            end = end + 1;
        }
        proof {
            lemma_line_end(text@, from as int);
        }
        let closed = end < text.len();
        let mut stop = end;
        if closed && end > from && text[end - 1] == '\r' {
            stop = end - 1;
        }
        let mut line: Vec<char> = Vec::new();
        let mut i: usize = from;
        while i < stop
            invariant
                from <= i <= stop <= text.len(),
                line@ == text@.subrange(from as int, i as int),
            decreases stop - i,
        {
            line.push(text[i]);
            i = i + 1;
        }
        proof {
            let raw = text@.subrange(from as int, end as int);
            assert(line@ =~= line_of(raw, closed));
        }
        lines.push(line);
        if closed {
            from = end + 1;
        } else {
            from = end;
        }
    }
    lines
}

/// Whether `line` begins with `prefix`.
pub fn begins_with(line: &Vec<char>, prefix: &Vec<char>) -> (found: bool)
    ensures
        found == starts_with(line@, prefix@),
{
    if prefix.len() > line.len() {
        return false;
    }
    let mut i: usize = 0;
    while i < prefix.len()
        invariant
            i <= prefix.len() <= line.len(),
            line@.take(i as int) == prefix@.take(i as int),
        decreases prefix.len() - i,
    {
        if line[i] != prefix[i] {
            return false;
        }
        i = i + 1;
    }
    assert(prefix@.take(prefix.len() as int) == prefix@);
    true
}

/// Joins the lines from `from` up to `to`, with a line feed between every
/// two.
fn join_lines(lines: &Vec<Vec<char>>, from: usize, to: usize) -> (joined: Vec<char>)
    requires
        from <= to <= lines.len(),
    ensures
        joined@ == join(views(lines@).subrange(from as int, to as int)),
{
    let mut joined: Vec<char> = Vec::new();
    let mut i: usize = from;
    while i < to
        invariant
            from <= i <= to <= lines.len(),
            joined@ == join(views(lines@).subrange(from as int, i as int)),
        decreases to - i,
    {
        if i > from {
            joined.push('\n');
        }
        let ghost started = joined@;
        let line = &lines[i];
        let mut k: usize = 0;
        while k < line.len()
            invariant
                k <= line.len(),
                joined@ == started + line@.take(k as int),
            decreases line.len() - k,
        {
            joined.push(line[k]);
            k = k + 1;
        }
        proof {
            let longer = views(lines@).subrange(from as int, i as int + 1);
            assert(longer.drop_last() =~= views(lines@).subrange(from as int, i as int));
        }
        i = i + 1;
    }
    joined
}

/// Takes the heading marks off the front of `line`, however many, and puts
/// a `v` there.
fn title_of(line: &Vec<char>, mark: &Vec<char>) -> (title: Vec<char>)
    requires
        mark@ == heading_mark(),
    ensures
        title@ == seq!['v'] + strip_marks(line@),
{
    let mut rest: Vec<char> = Vec::new();
    let mut i: usize = 0;
    while i < line.len()
        invariant
            i <= line.len(),
            rest@ == line@.take(i as int),
        decreases line.len() - i,
    {
        rest.push(line[i]);
        i = i + 1;
    }
    assert(line@.take(line.len() as int) == line@);
    while begins_with(&rest, mark)
        invariant
            mark@ == heading_mark(),
            strip_marks(line@) == strip_marks(rest@),
        decreases rest.len(),
    {
        let mut shorter: Vec<char> = Vec::new();
        let mut k: usize = 3;
        while k < rest.len()
            invariant
                3 <= k <= rest.len(),
                shorter@ == rest@.subrange(3, k as int),
            decreases rest.len() - k,
        {
            shorter.push(rest[k]);
            k = k + 1;
        }
        rest = shorter;
    }
    let mut title: Vec<char> = Vec::new();
    title.push('v');
    let mut j: usize = 0;
    while j < rest.len()
        invariant
            j <= rest.len(),
            title@ == seq!['v'] + rest@.take(j as int),
        decreases rest.len() - j,
    {
        title.push(rest[j]);
        j = j + 1;
    }
    title
}

/// How far the search has come, as it runs.
enum Search {
    Searching,
    Found { at: usize },
    Closed { at: usize, end: usize },
}

impl Search {
    spec fn scan(self) -> Scan {
        match self {
            Search::Searching => Scan::Searching,
            Search::Found { at } => Scan::Found { at: at as int },
            Search::Closed { at, end } => Scan::Closed { at: at as int, end: end as int },
        }
    }
}

/// Finds the notes and the title of `version` in the text of a changelog.
/// The answer is nothing where no line begins with the heading of the
/// version. It is an error where a second line begins with that heading,
/// and where more than one heading follows the section.
pub fn get_changelog_notes(changelog: &str, version: &str) -> (found: Result<
    Option<(String, String)>,
    ChangelogError,
>)
    ensures
        match found {
            Ok(Some((notes, title))) => notes_of(changelog@, version@) == Ok::<
                Option<(Seq<char>, Seq<char>)>,
                ChangelogError,
            >(Some((notes@, title@))),
            Ok(None) => notes_of(changelog@, version@) == Ok::<
                Option<(Seq<char>, Seq<char>)>,
                ChangelogError,
            >(None),
            Err(error) => notes_of(changelog@, version@) == Err::<
                Option<(Seq<char>, Seq<char>)>,
                ChangelogError,
            >(error),
        },
{
    let text = chars_of(changelog);
    let lines = split_lines(&text);
    let mut mark: Vec<char> = Vec::new();
    mark.push('#');
    mark.push('#');
    mark.push(' ');
    let mut heading: Vec<char> = Vec::new();
    heading.push('#');
    heading.push('#');
    heading.push(' ');
    let wanted = chars_of(version);
    let mut k: usize = 0;
    while k < wanted.len()
        invariant
            k <= wanted.len(),
            heading@ == heading_mark() + wanted@.take(k as int),
        decreases wanted.len() - k,
    {
        heading.push(wanted[k]);
        k = k + 1;
    }
    let ghost all = views(lines@);
    let mut state = Search::Searching;
    let mut i: usize = 0;
    while i < lines.len()
        invariant
            i <= lines.len(),
            all == views(lines@),
            all == lines_of(changelog@),
            heading@ == heading_mark() + version@,
            mark@ == heading_mark(),
            state.scan() == scan(all, heading@, i as nat),
            match state {
                Search::Searching => true,
                Search::Found { at } => at < i,
                Search::Closed { at, end } => at < end < i,
            },
        decreases lines.len() - i,
    {
        if begins_with(&lines[i], &heading) {
            match state {
                Search::Searching => {
                    state = Search::Found { at: i };
                },
                _ => {
                    proof {
                        assert(scan(all, heading@, (i + 1) as nat) == Scan::Failed(
                            ChangelogError::DuplicateVersion,
                        ));
                        lemma_failed_stays(all, heading@, (i + 1) as nat, all.len());
                    }
                    return Err(ChangelogError::DuplicateVersion);
                },
            }
        } else if begins_with(&lines[i], &mark) {
            match state {
                Search::Searching => {},
                Search::Found { at } => {
                    state = Search::Closed { at, end: i };
                },
                Search::Closed { at, end } => {
                    proof {
                        assert(scan(all, heading@, (i + 1) as nat) == Scan::Failed(
                            ChangelogError::SeveralOlderVersions,
                        ));
                        lemma_failed_stays(all, heading@, (i + 1) as nat, all.len());
                    }
                    return Err(ChangelogError::SeveralOlderVersions);
                },
            }
        }
        i = i + 1;
    }
    match state {
        Search::Searching => Ok(None),
        Search::Found { at } => {
            let notes = join_lines(&lines, at + 1, lines.len());
            let title = title_of(&lines[at], &mark);
            Ok(Some((string_from_chars(&notes), string_from_chars(&title))))
        },
        Search::Closed { at, end } => {
            let notes = join_lines(&lines, at + 1, end);
            let title = title_of(&lines[at], &mark);
            Ok(Some((string_from_chars(&notes), string_from_chars(&title))))
        },
    }
}

/// A search that has failed stays failed, with the same error.
proof fn lemma_failed_stays(lines: Seq<Seq<char>>, heading: Seq<char>, n: nat, m: nat)
    requires
        n <= m,
        scan(lines, heading, n) is Failed,
    ensures
        scan(lines, heading, m) == scan(lines, heading, n),
    decreases m - n,
{
    if n < m {
        lemma_failed_stays(lines, heading, n, (m - 1) as nat);
    }
}

} // verus!
