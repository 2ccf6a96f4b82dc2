use std::sync::atomic::{AtomicBool, AtomicUsize, Ordering};
use std::sync::Arc;
use vstd::prelude::*;

use crate::aggregator::Message;
use crate::fileinfo::FileInfo;
use crate::options::{Options, OptionsView, Sort};
use crate::search::Search;
use crate::sort::{
    lemma_positions_sort, lemma_unsorted_is_stable, sorted_positions, stably_sorted, views,
};

verus! {

/// How many of the latest patterns of each history are persisted.
pub const SAVED_HISTORY: usize = 20;

/// The views of a list of strings.
pub open spec fn texts(h: Seq<String>) -> Seq<Seq<char>> {
    h.map_values(|s: String| s@)
}

/// `h` with `t` appended, unless `t` is empty or already in `h`.
pub open spec fn remembered(h: Seq<String>, t: String) -> Seq<String> {
    if t@.len() == 0 || texts(h).contains(t@) {
        h
    } else {
        h.push(t)
    }
}

/// The last `n` entries of `h`, or all of them where it has fewer.
pub open spec fn latest(h: Seq<String>, n: nat) -> Seq<String> {
    if h.len() <= n {
        h
    } else {
        h.subrange(h.len() - n, h.len() as int)
    }
}

/// The configuration after a search for `s`: its directory becomes the last
/// one used and its non-empty patterns join the histories.
pub open spec fn searched_options(o: OptionsView, s: Search) -> OptionsView {
    OptionsView {
        last_dir: s.dir@,
        name_history: remembered(o.name_history, s.name_text),
        content_history: remembered(o.content_history, s.contents_text),
        ..o
    }
}

/// The configuration as it is persisted: the histories keep their latest
/// entries only.
pub open spec fn saved_options(o: OptionsView) -> OptionsView {
    OptionsView {
        name_history: latest(o.name_history, SAVED_HISTORY as nat),
        content_history: latest(o.content_history, SAVED_HISTORY as nat),
        ..o
    }
}

/// What the caller runs for one search: the workers to start, with the
/// generation that stamps their messages and the options they read.
#[derive(Debug)]
pub struct SearchPlan {
    pub generation: usize,
    pub search: Search,
    pub options: Options,
    /// Walk the tree for names; with a content pattern, check each match's
    /// contents too.
    pub name_phase: bool,
    /// Scan the contents of the whole tree; only without a name pattern.
    pub content_phase: bool,
}

/// The coordinator of searches: it numbers them, keeps the configuration, and
/// shares a cancellation flag and a progress counter with the workers.
pub struct Manager {
    id: usize,
    options: Options,
    /// Set to stop the workers of the current search.
    pub must_stop: Arc<AtomicBool>,
    /// The number of files opened for content scanning in the current search.
    pub counter: Arc<AtomicUsize>,
}

/// `h` with `t` remembered, unless it is empty or already there.
fn remember(h: &mut Vec<String>, t: &String)
    ensures
        final(h)@ == remembered(old(h)@, *t),
{
    if t.as_str().is_empty() {
        return;
    }
    let mut i: usize = 0;
    while i < h.len()
        invariant
            i <= h@.len(),
            forall|k: int| 0 <= k < i ==> (#[trigger] h@[k])@ != t@,
        decreases h@.len() - i,
    {
        if h[i] == *t {
            assert(texts(h@)[i as int] == t@);
            return;
        }
        i = i + 1;
    }
    proof {
        if texts(h@).contains(t@) {
            let k = choose|k: int| 0 <= k < texts(h@).len() && texts(h@)[k] == t@;
            assert(h@[k]@ == t@);
        }
    }
    h.push(t.clone());
}

/// The last `n` entries of `h`.
fn latest_of(h: &Vec<String>, n: usize) -> (r: Vec<String>)
    ensures
        r@ == latest(h@, n as nat),
{
    let start: usize = if h.len() <= n {
        0
    } else {
        h.len() - n
    };
    let mut r: Vec<String> = Vec::new();
    let mut i: usize = start;
    while i < h.len()
        invariant
            start <= i <= h@.len(),
            r@ == h@.subrange(start as int, i as int),
        decreases h@.len() - i,
    {
        r.push(h[i].clone());
        i = i + 1;
        assert(r@ =~= h@.subrange(start as int, i as int));
    }
    assert(h@.subrange(0, h@.len() as int) =~= h@);
    r
}

/// Reading the configuration right after replacing it gives back what was
/// set: `after` is a coordinator as `set_options(o)` leaves it, and `got` is
/// what `get_options` then returns.
pub proof fn lemma_get_after_set(before: Manager, o: Options, after: Manager, got: Options)
    requires
        after.config() == o@,
        after.generation() == before.generation(),
        got@ == after.config(),
    ensures
        got@ == o@,
{
}

impl Manager {
    /// The generation of the latest search; zero before the first.
    pub closed spec fn generation(&self) -> usize {
        self.id
    }

    /// The configuration.
    pub closed spec fn config(&self) -> OptionsView {
        self.options@
    }

    /// A coordinator with the given configuration, before its first search.
    pub fn new(options: Options) -> (r: Manager)
        ensures
            r.generation() == 0,
            r.config() == options@,
    {
        Manager {
            id: 0,
            options,
            must_stop: Arc::new(AtomicBool::new(false)),
            counter: Arc::new(AtomicUsize::new(0)),
        }
    }

    /// The generation of the latest search.
    pub fn id(&self) -> (r: usize)
        ensures
            r == self.generation(),
    {
        self.id
    }

    /// The configured order of final results.
    pub fn sort(&self) -> (r: Sort)
        ensures
            r == self.config().sort,
    {
        self.options.sort
    }

    /// Asks the workers of the current search to stop.
    pub fn stop(&mut self)
        ensures
            final(self).generation() == old(self).generation(),
            final(self).config() == old(self).config(),
    {
        self.must_stop.store(true, Ordering::Relaxed);
    }

    /// How many files the current search has opened for content scanning.
    pub fn get_count(&self) -> usize {
        self.counter.load(Ordering::Relaxed)
    }

    /// Starts a search: clears the cancellation flag and the counter, gives
    /// the search the next generation, records it in the configuration, and
    /// returns the workers to run, with a snapshot of the configuration.
    pub fn search(&mut self, search: Search) -> (plan: SearchPlan)
        requires
            old(self).generation() < usize::MAX,
        ensures
            final(self).generation() == old(self).generation() + 1,
            final(self).config() == searched_options(old(self).config(), search),
            plan.generation == final(self).generation(),
            plan.search@ == search@,
            plan.options@ == final(self).config(),
            plan.name_phase == (search.name_text@.len() > 0),
            plan.content_phase == (search.contents_text@.len() > 0 && search.name_text@.len()
                == 0),
    {
        self.must_stop.store(false, Ordering::Relaxed);
        self.id = self.id + 1;
        self.counter.store(0, Ordering::Relaxed);
        self.options.last_dir = search.dir.clone();
        remember(&mut self.options.name_history, &search.name_text);
        remember(&mut self.options.content_history, &search.contents_text);
        let name_phase = !search.name_text.as_str().is_empty();
        let content_phase = !search.contents_text.as_str().is_empty()
            && search.name_text.as_str().is_empty();
        SearchPlan {
            generation: self.id,
            options: self.options.clone(),
            search,
            name_phase,
            content_phase,
        }
    }

    /// The configuration to persist: as it stands, with the histories cut to
    /// their latest entries.
    pub fn save(&self) -> (r: Options)
        ensures
            r@ == saved_options(self.config()),
    {
        let mut r = self.options.clone();
        r.name_history = latest_of(&self.options.name_history, SAVED_HISTORY);
        r.content_history = latest_of(&self.options.content_history, SAVED_HISTORY);
        r
    }

    /// The configuration to persist, as `save` gives it, and the message
    /// that ends the aggregator.
    pub fn save_and_quit(&self) -> (r: (Options, Message))
        ensures
            r.0@ == saved_options(self.config()),
            r.1 is Quit,
    {
        (self.save(), Message::Quit)
    }

    /// Replaces the configuration; searches already running keep their
    /// snapshot.
    pub fn set_options(&mut self, ops: Options)
        ensures
            final(self).config() == ops@,
            final(self).generation() == old(self).generation(),
    {
        self.options = ops;
    }

    /// A snapshot of the configuration.
    pub fn get_options(&self) -> (r: Options)
        ensures
            r@ == self.config(),
    {
        self.options.clone()
    }

    /// Sets the order of the final results.
    pub fn set_sort(&mut self, sort: Sort)
        ensures
            final(self).config() == (OptionsView { sort, ..old(self).config() }),
            final(self).generation() == old(self).generation(),
    {
        self.options.sort = sort;
    }

    /// Sorts `vec` stably by the field that `sort` names; leaves it as it is
    /// for `Sort::Unsorted`.
    pub fn do_sort(vec: &mut Vec<FileInfo>, sort: Sort)
        ensures
            stably_sorted(views(final(vec)@), views(old(vec)@), sort),
    {
        if sort == Sort::Unsorted {
            proof {
                lemma_unsorted_is_stable(views(vec@));
            }
            return;
        }
        let order = sorted_positions(vec, sort, 0, vec.len());
        let mut out: Vec<FileInfo> = Vec::new();
        let mut k: usize = 0;
        while k < order.len()
            invariant
                order@.len() == vec@.len(),
                forall|i: int| 0 <= i < order@.len() ==> #[trigger] order@[i] < vec@.len(),
                k <= order@.len(),
                out@.len() == k,
                forall|i: int| 0 <= i < k ==> (#[trigger] out@[i])@ == vec@[order@[i] as int]@,
            decreases order@.len() - k,
        {
            out.push(vec[order[k]].clone());
            k = k + 1;
        }
        proof {
            let s = views(vec@);
            let o = views(out@);
            assert forall|i: int| 0 <= i < o.len() implies #[trigger] o[i] == s[order@[i] as int] by {
                assert(order@[i] < vec@.len());
            }
            lemma_positions_sort(o, s, sort, order@);
        }
        *vec = out;
    }
}

} // verus!
