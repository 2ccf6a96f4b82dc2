use std::ops::Range;
use vstd::prelude::*;

use grep::regex::{RegexMatcher, RegexMatcherBuilder};
use grep::searcher::sinks::Lossy;
use grep::searcher::{BinaryDetection, SearcherBuilder};
use regex::{Regex, RegexBuilder};

use crate::fileinfo::{match_views, Match, MatchView};
use crate::options::ContentOptions;
use crate::text::chars_of;

verus! {

#[verifier::external_type_specification]
#[verifier::external_body]
pub struct ExRegex(Regex);

#[verifier::external_type_specification]
#[verifier::external_body]
pub struct ExRegexMatcher(RegexMatcher);

#[verifier::external_type_specification]
#[verifier::external_body]
pub struct ExIoError(std::io::Error);

/// Whether `pattern` compiles as a regular expression, case-insensitive
/// where `case_insensitive` holds.
pub uninterp spec fn regex_compiles(pattern: Seq<char>, case_insensitive: bool) -> bool;

/// Whether that regular expression matches somewhere in `text`.
pub uninterp spec fn regex_matches(pattern: Seq<char>, case_insensitive: bool, text: Seq<char>) -> bool;

/// The byte ranges of `text` at which that regular expression matches, in
/// order, without overlap.
pub uninterp spec fn regex_ranges(pattern: Seq<char>, case_insensitive: bool, text: Seq<char>) -> Seq<(usize, usize)>;

/// Whether `pattern` compiles for the line searcher.
pub uninterp spec fn line_pattern_compiles(pattern: Seq<char>, case_insensitive: bool) -> bool;

/// The lines of `bytes` that the line searcher finds for `pattern`: each
/// line's number and its text with its terminator, in order; `None` where
/// the search fails.
pub uninterp spec fn matching_lines(pattern: Seq<char>, case_insensitive: bool, bytes: Seq<u8>) -> Option<Seq<(u64, Seq<char>)>>;

/// Whether `c` has a meaning in a regular expression.
pub open spec fn is_meta_character(c: char) -> bool {
    c == '\\' || c == '.' || c == '+' || c == '*' || c == '?' || c == '(' || c == ')' || c == '|'
        || c == '[' || c == ']' || c == '{' || c == '}' || c == '^' || c == '$' || c == '#' || c
        == '&' || c == '-' || c == '~'
}

/// `s` with a backslash before each meta character: a pattern that matches
/// `s` literally.
pub open spec fn escaped(s: Seq<char>) -> Seq<char>
    decreases s.len(),
{
    if s.len() == 0 {
        Seq::empty()
    } else if is_meta_character(s.last()) {
        escaped(s.drop_last()) + seq!['\\', s.last()]
    } else {
        escaped(s.drop_last()).push(s.last())
    }
}

/// Relies on `regex::escape`, which puts a backslash before each meta
/// character and keeps every other character.
#[verifier::external_body]
fn escape_pattern(s: &str) -> (r: String)
    ensures
        r@ == escaped(s@),
{
    regex::escape(s)
}

/// The ranges in `spans` as byte ranges.
pub open spec fn as_ranges(spans: Seq<(usize, usize)>) -> Seq<Range<usize>> {
    spans.map_values(|p: (usize, usize)| Range { start: p.0, end: p.1 })
}

/// A compiled regular expression with the pattern it was compiled from.
/// The fields are private and only `compile_regex` fills them, so `regex` is
/// always the compilation of `pattern`.
pub struct CompiledRegex {
    pattern: String,
    case_insensitive: bool,
    regex: Regex,
}

impl CompiledRegex {
    pub closed spec fn pattern(&self) -> Seq<char> {
        self.pattern@
    }

    pub closed spec fn case_insensitive(&self) -> bool {
        self.case_insensitive
    }
}

/// Relies on `regex::RegexBuilder::build`, which fails exactly on patterns
/// that do not compile.
#[verifier::external_body]
fn compile_regex(pattern: &str, case_insensitive: bool) -> (r: Option<CompiledRegex>)
    ensures
        r is Some <==> regex_compiles(pattern@, case_insensitive),
        r matches Some(c) ==> c.pattern() == pattern@ && c.case_insensitive() == case_insensitive,
{
    match RegexBuilder::new(pattern).case_insensitive(case_insensitive).build() {
        Ok(regex) => Some(CompiledRegex { pattern: pattern.to_string(), case_insensitive, regex }),
        Err(_) => None,
    }
}

/// Relies on `regex::Regex::is_match`.
#[verifier::external_body]
fn regex_is_match(c: &CompiledRegex, text: &str) -> (r: bool)
    ensures
        r == regex_matches(c.pattern(), c.case_insensitive(), text@),
{
    c.regex.is_match(text)
}

/// Relies on `regex::Regex::find_iter`: the successive matches' byte ranges.
#[verifier::external_body]
fn regex_find_ranges(c: &CompiledRegex, text: &str) -> (r: Vec<Range<usize>>)
    ensures
        r@ == as_ranges(regex_ranges(c.pattern(), c.case_insensitive(), text@)),
{
    c.regex.find_iter(text).map(|m| m.range()).collect()
}

/// The matcher of a name search.
pub struct NameMatcher {
    regex: CompiledRegex,
}

impl NameMatcher {
    /// The pattern matched against names.
    pub closed spec fn pattern(&self) -> Seq<char> {
        self.regex.pattern()
    }

    pub closed spec fn case_insensitive(&self) -> bool {
        self.regex.case_insensitive()
    }

    /// Compiles `pattern`; case-insensitive unless `case_sensitive`. `None`
    /// where the pattern does not compile.
    pub fn new(pattern: &str, case_sensitive: bool) -> (r: Option<NameMatcher>)
        ensures
            r is Some <==> regex_compiles(pattern@, !case_sensitive),
            r matches Some(m) ==> m.pattern() == pattern@ && m.case_insensitive() == !case_sensitive,
    {
        match compile_regex(pattern, !case_sensitive) {
            Some(regex) => Some(NameMatcher { regex }),
            None => None,
        }
    }

    /// Whether `name` matches.
    pub fn is_match(&self, name: &str) -> (r: bool)
        ensures
            r == regex_matches(self.pattern(), self.case_insensitive(), name@),
    {
        regex_is_match(&self.regex, name)
    }

    /// The byte ranges of `name` that match.
    pub fn ranges(&self, name: &str) -> (r: Vec<Range<usize>>)
        ensures
            r@ == as_ranges(regex_ranges(self.pattern(), self.case_insensitive(), name@)),
    {
        regex_find_ranges(&self.regex, name)
    }
}

/// A compiled line matcher with the pattern it was compiled from. The fields
/// are private and only `compile_lines` fills them.
pub struct LineMatcher {
    pattern: String,
    case_insensitive: bool,
    matcher: RegexMatcher,
}

impl LineMatcher {
    pub closed spec fn pattern(&self) -> Seq<char> {
        self.pattern@
    }

    pub closed spec fn case_insensitive(&self) -> bool {
        self.case_insensitive
    }
}

/// Relies on `grep::regex::RegexMatcherBuilder::build`, which fails exactly
/// on patterns that do not compile.
#[verifier::external_body]
fn compile_lines(pattern: &str, case_insensitive: bool) -> (r: Option<LineMatcher>)
    ensures
        r is Some <==> line_pattern_compiles(pattern@, case_insensitive),
        r matches Some(m) ==> m.pattern() == pattern@ && m.case_insensitive() == case_insensitive,
{
    match RegexMatcherBuilder::new().case_insensitive(case_insensitive).build(pattern) {
        Ok(matcher) => Some(LineMatcher { pattern: pattern.to_string(), case_insensitive, matcher }),
        Err(_) => None,
    }
}

/// The found lines as plain values.
pub open spec fn found_view(found: Seq<(u64, String)>) -> Seq<(u64, Seq<char>)> {
    found.map_values(|p: (u64, String)| (p.0, p.1@))
}

/// Appends one found line; the line searcher calls it for each match.
fn record_line(found: &mut Vec<(u64, String)>, line: u64, text: &str) -> (r: Result<
    bool,
    std::io::Error,
>)
    ensures
        found_view(final(found)@) == found_view(old(found)@).push((line, text@)),
        r matches Ok(true),
{
    let ghost before = found@;
    found.push((line, text.to_owned()));
    assert(found_view(found@) =~= found_view(before).push((line, text@)));
    Ok(true)
}

/// Relies on grep's `Searcher::search_slice` with line numbers on, which
/// stops at the first NUL byte, hands each matching line with its number to
/// the `Lossy` sink in order, and fails only where the sink fails.
#[verifier::external_body]
fn search_slice_lines(m: &LineMatcher, bytes: &[u8]) -> (r: Option<Vec<(u64, String)>>)
    ensures
        match r {
            Some(found) => matching_lines(m.pattern(), m.case_insensitive(), bytes@) == Some(
                found_view(found@),
            ),
            None => matching_lines(m.pattern(), m.case_insensitive(), bytes@) is None,
        },
{
    let mut searcher = SearcherBuilder::new()
        .binary_detection(BinaryDetection::quit(b'\x00'))
        .line_number(true)
        .build();
    let mut found = Vec::new();
    let sink = Lossy(|line, text| record_line(&mut found, line, text));
    match searcher.search_slice(&m.matcher, bytes, sink) {
        Ok(()) => Some(found),
        Err(_) => None,
    }
}

/// `s` without one trailing line feed, and then without one trailing
/// carriage return.
pub open spec fn without_terminator(s: Seq<char>) -> Seq<char> {
    let t = if s.len() > 0 && s.last() == '\n' {
        s.drop_last()
    } else {
        s
    };
    if t.len() > 0 && t.last() == '\r' {
        t.drop_last()
    } else {
        t
    }
}

/// The pattern that a content search runs: the given one, escaped where it
/// is to be matched literally.
pub open spec fn effective_pattern(pattern: Seq<char>, options: ContentOptions) -> Seq<char> {
    if options.nonregex {
        escaped(pattern)
    } else {
        pattern
    }
}

/// The matcher of a content search: a line searcher, and a regular
/// expression of the same pattern for highlighting where that compiles.
pub struct ContentMatcher {
    lines: LineMatcher,
    highlight: Option<CompiledRegex>,
}

/// The match reported for a found line, with the highlights of `pattern`.
pub open spec fn line_match(pattern: Seq<char>, case_insensitive: bool, found: (u64, Seq<char>)) -> MatchView {
    let content = without_terminator(found.1);
    MatchView {
        line: found.0 as usize,
        content,
        ranges: if regex_compiles(pattern, case_insensitive) {
            as_ranges(regex_ranges(pattern, case_insensitive, content))
        } else {
            Seq::empty()
        },
    }
}

impl ContentMatcher {
    /// The pattern the lines are searched for.
    pub closed spec fn pattern(&self) -> Seq<char> {
        self.lines.pattern()
    }

    pub closed spec fn case_insensitive(&self) -> bool {
        self.lines.case_insensitive()
    }

    pub closed spec fn well_formed(&self) -> bool {
        match self.highlight {
            Some(h) => {
                &&& h.pattern() == self.lines.pattern()
                &&& h.case_insensitive() == self.lines.case_insensitive()
                &&& regex_compiles(self.lines.pattern(), self.lines.case_insensitive())
            },
            None => !regex_compiles(self.lines.pattern(), self.lines.case_insensitive()),
        }
    }

    /// Compiles `pattern` under `options`. `None` where it does not compile
    /// for the line searcher.
    pub fn new(pattern: &str, options: ContentOptions) -> (r: Option<ContentMatcher>)
        ensures
            r is Some <==> line_pattern_compiles(
                effective_pattern(pattern@, options),
                !options.case_sensitive,
            ),
            r matches Some(m) ==> {
                &&& m.well_formed()
                &&& m.pattern() == effective_pattern(pattern@, options)
                &&& m.case_insensitive() == !options.case_sensitive
            },
    {
        let effective = if options.nonregex {
            escape_pattern(pattern)
        } else {
            pattern.to_owned()
        };
        let case_insensitive = !options.case_sensitive;
        match compile_lines(effective.as_str(), case_insensitive) {
            Some(lines) => {
                let highlight = compile_regex(effective.as_str(), case_insensitive);
                Some(ContentMatcher { lines, highlight })
            },
            None => None,
        }
    }

    /// The matches of one file's bytes, one per matching line in order;
    /// `None` where the search fails.
    pub fn scan(&self, bytes: &[u8]) -> (r: Option<Vec<Match>>)
        requires
            self.well_formed(),
        ensures
            match matching_lines(self.pattern(), self.case_insensitive(), bytes@) {
                Some(found) => r matches Some(ms) && match_views(ms@) == found.map_values(
                    |f: (u64, Seq<char>)| line_match(self.pattern(), self.case_insensitive(), f),
                ),
                None => r is None,
            },
    {
        match search_slice_lines(&self.lines, bytes) {
            Some(found) => Some(self.matches_of_lines(&found)),
            None => None,
        }
    }

    /// The matches for lines that the line searcher found: each line's
    /// number, its text without terminator, and the highlights of the
    /// pattern in that text.
    pub fn matches_of_lines(&self, found: &Vec<(u64, String)>) -> (r: Vec<Match>)
        requires
            self.well_formed(),
        ensures
            match_views(r@) == found_view(found@).map_values(
                |f: (u64, Seq<char>)| line_match(self.pattern(), self.case_insensitive(), f),
            ),
    {
        let ghost fv = found_view(found@);
        let mut ms: Vec<Match> = Vec::new();
        let mut i: usize = 0;
        while i < found.len()
            invariant
                self.well_formed(),
                fv == found_view(found@),
                i <= found@.len(),
                ms@.len() == i,
                forall|k: int| 0 <= k < i ==> (#[trigger] ms@[k])@ == line_match(
                    self.pattern(),
                    self.case_insensitive(),
                    fv[k],
                ),
            decreases found@.len() - i,
        {
            let content = strip_terminator(found[i].1.as_str());
            let ranges = match &self.highlight {
                Some(h) => regex_find_ranges(h, content.as_str()),
                None => Vec::new(),
            };
            let line = #[verifier::truncate] (found[i].0 as usize);
            let m = Match { line, content, ranges };
            assert(m@.content == without_terminator(fv[i as int].1));
            assert(m@.ranges =~= line_match(self.pattern(), self.case_insensitive(), fv[i as int]).ranges);
            ms.push(m);
            i = i + 1;
        }
        assert(match_views(ms@) =~= fv.map_values(
            |f: (u64, Seq<char>)| line_match(self.pattern(), self.case_insensitive(), f),
        ));
        ms
    }
}

/// `s` without its line terminator.
pub fn strip_terminator(s: &str) -> (r: String)
    ensures
        r@ == without_terminator(s@),
{
    let cs = chars_of(s);
    let mut end = cs.len();
    if end > 0 && cs[end - 1] == '\n' {
        end = end - 1;
    }
    if end > 0 && cs[end - 1] == '\r' {
        end = end - 1;
    }
    let r = s.substring_char(0, end).to_owned();
    assert(r@ =~= without_terminator(s@));
    r
}

} // verus!
