use vstd::prelude::*;

use crate::fileinfo::{match_views, FileInfo, FileInfoView, Match, MatchView};
use crate::matching::ContentMatcher;
use crate::sort::views;
use crate::walk::{extension, extension_of, read_error, scanned};

verus! {

/// No two entries of `rs` have the same path.
pub open spec fn paths_unique(rs: Seq<FileInfoView>) -> bool {
    forall|i: int, j: int| 0 <= i < j < rs.len() ==> #[trigger] rs[i].path != #[trigger] rs[j].path
}

/// The entry of a file found by a content scan.
pub open spec fn scanned_file(path: Seq<char>, name: Seq<char>, matches: Seq<MatchView>) -> FileInfoView {
    FileInfoView { path, matches, ext: extension(name), name, is_folder: false, ranges: Seq::empty() }
}

/// `rs` after adding `f`: nothing changes where `f` has no matches; its
/// matches join the entry of the same path where there is one; else it is
/// appended.
pub open spec fn with_file(rs: Seq<FileInfoView>, f: FileInfoView) -> Seq<FileInfoView> {
    if f.matches.len() == 0 {
        rs
    } else if exists|i: int| 0 <= i < rs.len() && rs[i].path == f.path {
        let i = choose|i: int| 0 <= i < rs.len() && rs[i].path == f.path;
        rs.update(i, FileInfoView { matches: rs[i].matches + f.matches, ..rs[i] })
    } else {
        rs.push(f)
    }
}

/// The files and errors of a content scan, one entry per path.
#[derive(Debug)]
pub struct ContentFileInfoResults {
    pub results: Vec<FileInfo>,
    pub errors: Vec<String>,
}

impl ContentFileInfoResults {
    /// The invariant: one entry per path.
    pub open spec fn well_formed(&self) -> bool {
        paths_unique(views(self.results@))
    }

    /// No files and no errors yet.
    pub fn new() -> (r: ContentFileInfoResults)
        ensures
            r.results@.len() == 0,
            r.errors@.len() == 0,
            r.well_formed(),
    {
        ContentFileInfoResults { results: Vec::new(), errors: Vec::new() }
    }

    /// Adds the matches of the file at `path`, named `name`.
    pub fn add_file(&mut self, path: &str, name: &str, matches: Vec<Match>)
        requires
            old(self).well_formed(),
        ensures
            final(self).well_formed(),
            views(final(self).results@) == with_file(
                views(old(self).results@),
                scanned_file(path@, name@, match_views(matches@)),
            ),
            final(self).errors@ == old(self).errors@,
    {
        let ghost rs = views(self.results@);
        let ghost f = scanned_file(path@, name@, match_views(matches@));
        if matches.len() == 0 {
            return;
        }
        let key = path.to_owned();
        let mut i: usize = 0;
        while i < self.results.len()
            invariant
                rs == views(self.results@),
                rs == views(old(self).results@),
                paths_unique(rs),
                f == scanned_file(path@, name@, match_views(matches@)),
                self.errors@ == old(self).errors@,
                key@ == path@,
                i <= self.results@.len(),
                forall|k: int| 0 <= k < i ==> (#[trigger] rs[k]).path != path@,
            decreases self.results@.len() - i,
        {
            let same = self.results[i].path == key;
            if same {
                proof {
                    assert(self.results@[i as int].path@ == path@);
                    assert(rs[i as int].path == f.path);
                    assert(0 <= i < rs.len());
                    let j = choose|j: int| 0 <= j < rs.len() && rs[j].path == f.path;
                    if j < i {
                        assert(rs[j].path != rs[i as int].path);
                    } else if j > i {
                        assert(rs[i as int].path != rs[j].path);
                    }
                    assert(j == i);
                }
                let mut entry = self.results.remove(i);
                let mut matches = matches;
                let ghost added = matches@;
                entry.matches.append(&mut matches);
                assert(match_views(entry.matches@) =~= rs[i as int].matches + match_views(added));
                self.results.insert(i, entry);
                proof {
                    assert(views(self.results@) =~= with_file(rs, f));
                    assert forall|a: int, b: int| 0 <= a < b < rs.len() implies #[trigger] views(
                        self.results@,
                    )[a].path != #[trigger] views(self.results@)[b].path by {
                        assert(views(self.results@)[a].path == rs[a].path);
                        assert(views(self.results@)[b].path == rs[b].path);
                    }
                }
                return;
            }
            i = i + 1;
        }
        let info = FileInfo {
            path: path.to_owned(),
            matches,
            ext: extension_of(name),
            name: name.to_owned(),
            is_folder: false,
            ranges: Vec::new(),
        };
        self.results.push(info);
        assert(views(self.results@) =~= rs.push(f));
        assert(!(exists|k: int| 0 <= k < rs.len() && rs[k].path == f.path));
    }

    /// Scans the bytes of the file at `path`, named `name`: its matches are
    /// added, or an error where the search fails.
    pub fn scan_file(&mut self, contents: &ContentMatcher, path: &str, name: &str, bytes: &[u8])
        requires
            old(self).well_formed(),
            contents.well_formed(),
        ensures
            final(self).well_formed(),
            match scanned(contents, bytes@) {
                None => {
                    &&& final(self).results@ == old(self).results@
                    &&& final(self).errors@.len() == old(self).errors@.len() + 1
                    &&& final(self).errors@.drop_last() == old(self).errors@
                    &&& final(self).errors@.last()@ == read_error(path@)
                },
                Some(ms) => {
                    &&& views(final(self).results@) == with_file(
                        views(old(self).results@),
                        scanned_file(path@, name@, ms),
                    )
                    &&& final(self).errors@ == old(self).errors@
                },
            },
    {
        match contents.scan(bytes) {
            Some(ms) => self.add_file(path, name, ms),
            None => {
                let mut e = String::from_str("Could not read file ");
                e.append(path);
                self.errors.push(e);
                assert(self.errors@.drop_last() =~= old(self).errors@);
            },
        }
    }
}

} // verus!
