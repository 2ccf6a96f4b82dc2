use vstd::prelude::*;

verus! {

/// Which kind of filesystem entry a name search reports.
#[derive(PartialEq, Eq, Structural, Clone, Copy, Debug)]
pub enum FTypes {
    Files,
    Directories,
    All,
}

/// The field that the final result set is ordered by.
#[derive(PartialEq, Eq, Structural, Clone, Copy, Debug)]
pub enum Sort {
    /// Keep the order in which entries were found.
    Unsorted,
    Path,
    Name,
    Extension,
}

impl Default for Sort {
    fn default() -> (r: Sort)
        ensures
            r == Sort::Unsorted,
    {
        Sort::Unsorted
    }
}

/// Options of the name walk.
#[derive(PartialEq, Eq, Structural, Clone, Copy, Debug)]
pub struct NameOptions {
    pub case_sensitive: bool,
    pub file_types: FTypes,
    pub same_filesystem: bool,
    pub follow_links: bool,
    pub ignore_dot: bool,
    pub use_gitignore: bool,
}

impl Default for NameOptions {
    fn default() -> (r: NameOptions)
        ensures
            r == (NameOptions {
                case_sensitive: false,
                file_types: FTypes::All,
                same_filesystem: false,
                follow_links: false,
                ignore_dot: true,
                use_gitignore: true,
            }),
    {
        NameOptions {
            case_sensitive: false,
            file_types: FTypes::All,
            same_filesystem: false,
            follow_links: false,
            ignore_dot: true,
            use_gitignore: true,
        }
    }
}

/// Options of the content scan.
#[derive(PartialEq, Eq, Structural, Clone, Copy, Debug)]
pub struct ContentOptions {
    pub case_sensitive: bool,
    /// Match the pattern as literal text rather than as a regular expression.
    pub nonregex: bool,
}

impl Default for ContentOptions {
    fn default() -> (r: ContentOptions)
        ensures
            r == (ContentOptions { case_sensitive: false, nonregex: false }),
    {
        ContentOptions { case_sensitive: false, nonregex: false }
    }
}

/// The persisted search configuration.
#[derive(Debug)]
pub struct Options {
    pub sort: Sort,
    pub last_dir: String,
    pub name_history: Vec<String>,
    pub content_history: Vec<String>,
    pub name: NameOptions,
    pub content: ContentOptions,
}

/// The configuration as plain values.
pub struct OptionsView {
    pub sort: Sort,
    pub last_dir: Seq<char>,
    pub name_history: Seq<String>,
    pub content_history: Seq<String>,
    pub name: NameOptions,
    pub content: ContentOptions,
}

impl View for Options {
    type V = OptionsView;

    open spec fn view(&self) -> OptionsView {
        OptionsView {
            sort: self.sort,
            last_dir: self.last_dir@,
            name_history: self.name_history@,
            content_history: self.content_history@,
            name: self.name,
            content: self.content,
        }
    }
}

impl Clone for Options {
    fn clone(&self) -> (r: Options)
        ensures
            r@ == self@,
    {
        let name_history = self.name_history.clone();
        let content_history = self.content_history.clone();
        assert(name_history@ =~= self.name_history@);
        assert(content_history@ =~= self.content_history@);
        Options {
            sort: self.sort,
            last_dir: self.last_dir.clone(),
            name_history,
            content_history,
            name: self.name,
            content: self.content,
        }
    }
}

impl Default for Options {
    fn default() -> (r: Options)
        ensures
            r.sort == Sort::Unsorted,
            r.last_dir@ == seq!['.'],
            r.name_history@.len() == 0,
            r.content_history@.len() == 0,
            r.name == NameOptions::default_spec(),
            r.content == (ContentOptions { case_sensitive: false, nonregex: false }),
    {
        proof {
            reveal_strlit(".");
        }
        Options {
            sort: Sort::Unsorted,
            last_dir: String::from_str("."),
            name_history: Vec::new(),
            content_history: Vec::new(),
            name: NameOptions::default(),
            content: ContentOptions::default(),
        }
    }
}

impl NameOptions {
    /// The name options a fresh configuration starts with.
    pub open spec fn default_spec() -> NameOptions {
        NameOptions {
            case_sensitive: false,
            file_types: FTypes::All,
            same_filesystem: false,
            follow_links: false,
            ignore_dot: true,
            use_gitignore: true,
        }
    }
}

} // verus!
