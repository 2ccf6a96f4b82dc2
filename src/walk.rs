use std::ops::Range;
use vstd::prelude::*;

use crate::fileinfo::{match_views, FileInfo, FileInfoView, Match, MatchView};
use crate::matching::{
    as_ranges, matching_lines, regex_matches, regex_ranges, ContentMatcher, NameMatcher,
};
use crate::options::FTypes;
use crate::text::chars_of;

verus! {

/// A filesystem entry as the directory walk reports it.
#[derive(Debug)]
pub struct Entry {
    pub path: String,
    /// The last component of `path`.
    pub name: String,
    pub is_dir: bool,
    pub is_file: bool,
}

/// Whether an entry of this kind is reported under `file_types`.
pub open spec fn type_wanted(file_types: FTypes, is_dir: bool, is_file: bool) -> bool {
    match file_types {
        FTypes::Files => is_file,
        FTypes::Directories => is_dir,
        FTypes::All => true,
    }
}

/// The position of the last `.` in `s`, or -1.
pub open spec fn last_dot(s: Seq<char>) -> int
    decreases s.len(),
{
    if s.len() == 0 {
        -1
    } else if s.last() == '.' {
        s.len() - 1
    } else {
        last_dot(s.drop_last())
    }
}

/// The extension of a file name: what follows its last dot, unless that dot
/// starts the name or the name is `..`; empty where there is none.
pub open spec fn extension(name: Seq<char>) -> Seq<char> {
    let d = last_dot(name);
    if name == seq!['.', '.'] || d <= 0 {
        Seq::empty()
    } else {
        name.skip(d + 1)
    }
}

/// The extension of the file name `name`.
pub fn extension_of(name: &str) -> (r: String)
    ensures
        r@ == extension(name@),
{
    let cs = chars_of(name);
    let n = cs.len();
    if n == 2 && cs[0] == '.' && cs[1] == '.' {
        assert(name@ =~= seq!['.', '.']);
        return String::new();
    }
    let mut i: usize = n;
    assert(name@.take(n as int) =~= name@);
    while i > 0 && cs[i - 1] != '.'
        invariant
            i <= n,
            n == cs@.len(),
            cs@ == name@,
            last_dot(name@) == last_dot(name@.take(i as int)),
        decreases i,
    {
        assert(name@.take(i as int).drop_last() =~= name@.take(i - 1));
        i = i - 1;
    }
    if i == 0 {
        assert(name@.take(0) =~= Seq::<char>::empty());
        return String::new();
    }
    assert(last_dot(name@.take(i as int)) == i - 1);
    if i == 1 {
        return String::new();
    }
    let r = name.substring_char(i, n).to_owned();
    assert(r@ =~= extension(name@));
    r
}

/// What the name walk reports for `path`.
pub open spec fn found_entry(
    path: Seq<char>,
    name: Seq<char>,
    is_folder: bool,
    matches: Seq<MatchView>,
    ranges: Seq<Range<usize>>,
) -> FileInfoView {
    FileInfoView { path, matches, ext: extension(name), name, is_folder, ranges }
}

/// What the name walk does with one entry.
#[derive(Debug)]
pub enum EntryDecision {
    /// Leave it out.
    Skip,
    /// Report it as it is.
    Report(FileInfo),
    /// Read the file and keep it only where its contents match.
    CheckContents,
}

/// The entry is of a wanted kind and its name matches.
pub open spec fn name_accepted(entry: &Entry, file_types: FTypes, names: &NameMatcher) -> bool {
    type_wanted(file_types, entry.is_dir, entry.is_file) && regex_matches(
        names.pattern(),
        names.case_insensitive(),
        entry.name@,
    )
}

/// Builds the result for an accepted entry.
fn entry_info(entry: &Entry, names: &NameMatcher, matches: Vec<Match>) -> (r: FileInfo)
    ensures
        r@ == found_entry(
            entry.path@,
            entry.name@,
            entry.is_dir,
            match_views(matches@),
            as_ranges(regex_ranges(names.pattern(), names.case_insensitive(), entry.name@)),
        ),
{
    FileInfo {
        path: entry.path.clone(),
        matches,
        ext: extension_of(entry.name.as_str()),
        name: entry.name.clone(),
        is_folder: entry.is_dir,
        ranges: names.ranges(entry.name.as_str()),
    }
}

/// Decides on one entry of a name walk: it must be of a wanted kind and its
/// name must match; with a content pattern, directories are left out and
/// files are kept only after their contents are checked.
pub fn decide_entry(entry: &Entry, file_types: FTypes, names: &NameMatcher, with_contents: bool) -> (r:
    EntryDecision)
    ensures
        !name_accepted(entry, file_types, names) ==> r is Skip,
        name_accepted(entry, file_types, names) && with_contents ==> (if entry.is_dir {
            r is Skip
        } else {
            r is CheckContents
        }),
        name_accepted(entry, file_types, names) && !with_contents ==> (r matches EntryDecision::Report(
            f,
        ) && f@ == found_entry(
            entry.path@,
            entry.name@,
            entry.is_dir,
            Seq::empty(),
            as_ranges(regex_ranges(names.pattern(), names.case_insensitive(), entry.name@)),
        )),
{
    let wanted = match file_types {
        FTypes::Files => entry.is_file,
        FTypes::Directories => entry.is_dir,
        FTypes::All => true,
    };
    if !wanted || !names.is_match(entry.name.as_str()) {
        return EntryDecision::Skip;
    }
    if with_contents {
        if entry.is_dir {
            EntryDecision::Skip
        } else {
            EntryDecision::CheckContents
        }
    } else {
        let r = entry_info(entry, names, Vec::new());
        assert(match_views(Seq::<Match>::empty()) =~= Seq::empty());
        EntryDecision::Report(r)
    }
}

/// The error reported for a file whose contents could not be searched.
pub open spec fn read_error(path: Seq<char>) -> Seq<char> {
    "Could not read file "@ + path
}

/// The message for a file whose contents could not be searched.
fn read_error_message(path: &str) -> (r: String)
    ensures
        r@ == read_error(path@),
{
    let mut r = String::from_str("Could not read file ");
    r.append(path);
    r
}

/// The matches of `bytes` under `contents`, as its `scan` states them.
pub open spec fn scanned(contents: &ContentMatcher, bytes: Seq<u8>) -> Option<Seq<MatchView>> {
    match matching_lines(contents.pattern(), contents.case_insensitive(), bytes) {
        Some(found) => Some(
            found.map_values(
                |f: (u64, Seq<char>)|
                    crate::matching::line_match(contents.pattern(), contents.case_insensitive(), f),
            ),
        ),
        None => None,
    }
}

/// Finishes an entry that needed its contents checked, given the file's
/// bytes: kept with its matches where there are any, left out where there
/// are none, an error where the search failed.
pub fn entry_with_contents(entry: &Entry, names: &NameMatcher, contents: &ContentMatcher, bytes: &[u8]) -> (r:
    Result<Option<FileInfo>, String>)
    requires
        contents.well_formed(),
    ensures
        match scanned(contents, bytes@) {
            None => r matches Err(e) && e@ == read_error(entry.path@),
            Some(ms) => if ms.len() == 0 {
                r matches Ok(None)
            } else {
                r matches Ok(Some(f)) && f@ == found_entry(
                    entry.path@,
                    entry.name@,
                    entry.is_dir,
                    ms,
                    as_ranges(regex_ranges(names.pattern(), names.case_insensitive(), entry.name@)),
                )
            },
        },
{
    match contents.scan(bytes) {
        None => Err(read_error_message(entry.path.as_str())),
        Some(ms) => {
            if ms.len() == 0 {
                Ok(None)
            } else {
                Ok(Some(entry_info(entry, names, ms)))
            }
        },
    }
}

} // verus!
