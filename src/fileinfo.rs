use std::ops::Range;
use vstd::prelude::*;

use crate::text::{
    decimal, decimal_string, joined_lines, trim_end_str, trimmed_end,
};

verus! {

/// One matching line of a file.
#[derive(Debug)]
pub struct Match {
    /// The line's number, counted from one.
    pub line: usize,
    /// The line's text, without its terminator.
    pub content: String,
    /// Byte ranges of `content` to highlight.
    pub ranges: Vec<Range<usize>>,
}

/// A match as plain values.
pub struct MatchView {
    pub line: usize,
    pub content: Seq<char>,
    pub ranges: Seq<Range<usize>>,
}

impl View for Match {
    type V = MatchView;

    open spec fn view(&self) -> MatchView {
        MatchView { line: self.line, content: self.content@, ranges: self.ranges@ }
    }
}

/// Copies a list of byte ranges.
pub fn copy_ranges(ranges: &Vec<Range<usize>>) -> (r: Vec<Range<usize>>)
    ensures
        r@ == ranges@,
{
    let mut r: Vec<Range<usize>> = Vec::new();
    let mut i: usize = 0;
    while i < ranges.len()
        invariant
            i <= ranges@.len(),
            r@ == ranges@.subrange(0, i as int),
        decreases ranges@.len() - i,
    {
        let span = Range { start: ranges[i].start, end: ranges[i].end };
        r.push(span);
        i = i + 1;
    }
    assert(r@ =~= ranges@);
    r
}

impl Clone for Match {
    fn clone(&self) -> (r: Match)
        ensures
            r@ == self@,
    {
        Match { line: self.line, content: self.content.clone(), ranges: copy_ranges(&self.ranges) }
    }
}

/// A file or directory found by a search.
#[derive(Debug)]
pub struct FileInfo {
    pub path: String,
    /// The matching lines; empty unless the search had a content pattern.
    pub matches: Vec<Match>,
    pub ext: String,
    pub name: String,
    pub is_folder: bool,
    /// Byte ranges of `name` to highlight.
    pub ranges: Vec<Range<usize>>,
}

/// A found entry as plain values.
pub struct FileInfoView {
    pub path: Seq<char>,
    pub matches: Seq<MatchView>,
    pub ext: Seq<char>,
    pub name: Seq<char>,
    pub is_folder: bool,
    pub ranges: Seq<Range<usize>>,
}

/// The views of a list of matches.
pub open spec fn match_views(ms: Seq<Match>) -> Seq<MatchView> {
    ms.map_values(|m: Match| m@)
}

impl View for FileInfo {
    type V = FileInfoView;

    open spec fn view(&self) -> FileInfoView {
        FileInfoView {
            path: self.path@,
            matches: match_views(self.matches@),
            ext: self.ext@,
            name: self.name@,
            is_folder: self.is_folder,
            ranges: self.ranges@,
        }
    }
}

/// Copies a list of matches.
pub fn copy_matches(ms: &Vec<Match>) -> (r: Vec<Match>)
    ensures
        match_views(r@) == match_views(ms@),
{
    let mut r: Vec<Match> = Vec::new();
    let mut i: usize = 0;
    while i < ms.len()
        invariant
            i <= ms@.len(),
            r@.len() == i,
            forall|k: int| 0 <= k < i ==> #[trigger] r@[k]@ == ms@[k]@,
        decreases ms@.len() - i,
    {
        let m = ms[i].clone();
        r.push(m);
        i = i + 1;
    }
    assert(match_views(r@) =~= match_views(ms@));
    r
}

impl Clone for FileInfo {
    fn clone(&self) -> (r: FileInfo)
        ensures
            r@ == self@,
    {
        FileInfo {
            path: self.path.clone(),
            matches: copy_matches(&self.matches),
            ext: self.ext.clone(),
            name: self.name.clone(),
            is_folder: self.is_folder,
            ranges: copy_ranges(&self.ranges),
        }
    }
}

/// The text of a match, cut to `max_length` characters with an ellipsis
/// where it is longer, else with its trailing whitespace removed.
pub open spec fn limited_text(content: Seq<char>, max_length: nat) -> Seq<char> {
    if content.len() > max_length {
        content.take(max_length as int) + seq!['.', '.', '.']
    } else {
        trimmed_end(content)
    }
}

/// `text`, preceded by the line number and a colon where `line_number` holds.
pub open spec fn labelled(line: usize, line_number: bool, text: Seq<char>) -> Seq<char> {
    if line_number {
        decimal(line as nat) + seq![':', ' '] + text
    } else {
        text
    }
}

/// How one match is shown: its limited text, labelled with its line number
/// where `line_number` holds.
pub open spec fn shown_match(m: MatchView, max_length: nat, line_number: bool) -> Seq<char> {
    labelled(m.line, line_number, limited_text(m.content, max_length))
}

/// How a file's matches are shown: the first `max_count` of them, each
/// labelled, one per line.
pub open spec fn shown_content(ms: Seq<MatchView>, max_count: nat, max_length: nat) -> Seq<char> {
    let n = if ms.len() < max_count { ms.len() } else { max_count };
    joined_lines(Seq::new(n, |i: int| shown_match(ms[i], max_length, true)))
}

/// Prefixes `text` with `line` and a colon where `line_number` holds.
pub fn labelled_line(line: usize, line_number: bool, text: &str) -> (r: String)
    ensures
        r@ == labelled(line, line_number, text@),
{
    if line_number {
        proof {
            reveal_strlit(": ");
        }
        let mut r = decimal_string(line);
        r.append(": ");
        r.append(text);
        r
    } else {
        text.to_owned()
    }
}

impl FileInfo {
    /// The first `max_count` matches, each shown as `limited_match` shows it
    /// with its line number, joined by line feeds.
    pub fn content(&self, max_count: usize, max_length: usize) -> (r: String)
        ensures
            r@ == shown_content(self@.matches, max_count as nat, max_length as nat),
    {
        let n: usize = if self.matches.len() < max_count {
            self.matches.len()
        } else {
            max_count
        };
        let ghost parts = Seq::new(
            n as nat,
            |i: int| shown_match(self@.matches[i], max_length as nat, true),
        );
        let mut r = String::new();
        let mut i: usize = 0;
        proof {
            reveal_strlit("\n");
        }
        while i < n
            invariant
                n <= self.matches@.len(),
                parts.len() == n,
                forall|k: int| 0 <= k < n ==> #[trigger] parts[k] == shown_match(
                    self@.matches[k],
                    max_length as nat,
                    true,
                ),
                i <= n,
                r@ == joined_lines(parts.take(i as int)),
            decreases n - i,
        {
            let line = FileInfo::limited_match(&self.matches[i], max_length, true);
            if i > 0 {
                r.append("\n");
            }
            r.append(line.as_str());
            proof {
                reveal_strlit("\n");
                let next = parts.take(i + 1);
                assert(self@.matches[i as int] == self.matches@[i as int]@);
                assert(line@ == parts[i as int]);
                assert(next.drop_last() =~= parts.take(i as int));
                assert(next.last() == parts[i as int]);
                assert(r@ =~= joined_lines(next));
            }
            i = i + 1;
        }
        assert(parts.take(n as int) =~= parts);
        r
    }

    /// One match as text: at most `max_length` characters of it (an ellipsis
    /// marks a cut; an uncut line loses its trailing whitespace), after its
    /// line number where `line_number` holds.
    pub fn limited_match(x: &Match, max_length: usize, line_number: bool) -> (r: String)
        ensures
            r@ == shown_match(x@, max_length as nat, line_number),
    {
        let text = x.content.as_str();
        let count = text.unicode_len();
        if count > max_length {
            proof {
                reveal_strlit("...");
            }
            let mut cut = text.substring_char(0, max_length).to_owned();
            cut.append("...");
            assert(cut@ =~= limited_text(x.content@, max_length as nat));
            labelled_line(x.line, line_number, cut.as_str())
        } else {
            let trimmed = trim_end_str(text);
            labelled_line(x.line, line_number, trimmed)
        }
    }
}

} // verus!
