use vstd::prelude::*;

verus! {

/// One search request: where to look and what to look for.
#[derive(Debug)]
pub struct Search {
    pub dir: String,
    /// A regular expression that an entry's name must match; empty for none.
    pub name_text: String,
    /// A pattern that a file's lines must match; empty for none.
    pub contents_text: String,
}

/// A search request as plain values.
pub struct SearchView {
    pub dir: Seq<char>,
    pub name_text: Seq<char>,
    pub contents_text: Seq<char>,
}

impl View for Search {
    type V = SearchView;

    open spec fn view(&self) -> SearchView {
        SearchView { dir: self.dir@, name_text: self.name_text@, contents_text: self.contents_text@ }
    }
}

impl Clone for Search {
    fn clone(&self) -> (r: Search)
        ensures
            r@ == self@,
    {
        Search {
            dir: self.dir.clone(),
            name_text: self.name_text.clone(),
            contents_text: self.contents_text.clone(),
        }
    }
}

impl Default for Search {
    fn default() -> (r: Search)
        ensures
            r@ == (SearchView { dir: seq!['.'], name_text: Seq::empty(), contents_text: Seq::empty() }),
    {
        proof {
            reveal_strlit(".");
        }
        let r = Search { dir: String::from_str("."), name_text: String::new(), contents_text: String::new() };
        assert(r@.dir =~= seq!['.']);
        r
    }
}

} // verus!
