use vstd::prelude::*;

use crate::fileinfo::{FileInfo, FileInfoView};
use crate::manager::Manager;
use crate::options::Sort;
use crate::sort::{lemma_stably_sorted_len, stably_sorted, views};

verus! {

/// A message from the coordinator or a worker to the aggregator. Each one
/// that belongs to a search carries that search's generation.
#[derive(Debug)]
pub enum Message {
    /// One entry found by the name walk.
    File(FileInfo, usize),
    /// A worker finished, after the given nanoseconds.
    Done(usize, u64),
    /// All entries of a content scan, and the nanoseconds it took.
    ContentFiles(Vec<FileInfo>, usize, u64),
    /// A search started: forget what came before.
    StartSearch(usize),
    /// Files that could not be read.
    FileErrors(Vec<String>),
    /// End the aggregator.
    Quit,
}

/// A message as plain values.
pub enum MessageView {
    File(FileInfoView, usize),
    Done(usize, u64),
    ContentFiles(Seq<FileInfoView>, usize, u64),
    StartSearch(usize),
    FileErrors(Seq<String>),
    Quit,
}

impl View for Message {
    type V = MessageView;

    open spec fn view(&self) -> MessageView {
        match self {
            Message::File(f, g) => MessageView::File(f@, *g),
            Message::Done(g, dt) => MessageView::Done(*g, *dt),
            Message::ContentFiles(fs, g, dt) => MessageView::ContentFiles(views(fs@), *g, *dt),
            Message::StartSearch(g) => MessageView::StartSearch(*g),
            Message::FileErrors(es) => MessageView::FileErrors(es@),
            Message::Quit => MessageView::Quit,
        }
    }
}

/// The complete, sorted result set of one search.
#[derive(Debug)]
pub struct FinalResults {
    pub data: Vec<FileInfo>,
    /// The time the workers took, in nanoseconds.
    pub duration_nanos: u64,
    /// The search's generation.
    pub id: usize,
}

/// A final result set as plain values.
pub struct FinalResultsView {
    pub data: Seq<FileInfoView>,
    pub duration_nanos: u64,
    pub id: usize,
}

/// An event for the consumer of a search.
#[derive(Debug)]
pub enum SearchResult {
    FinalResults(FinalResults),
    InterimResult(FileInfo),
    SearchErrors(Vec<String>),
}

/// An event as plain values.
pub enum SearchResultView {
    FinalResults(FinalResultsView),
    InterimResult(FileInfoView),
    SearchErrors(Seq<String>),
}

impl View for SearchResult {
    type V = SearchResultView;

    open spec fn view(&self) -> SearchResultView {
        match self {
            SearchResult::FinalResults(fr) => SearchResultView::FinalResults(
                FinalResultsView { data: views(fr.data@), duration_nanos: fr.duration_nanos, id: fr.id },
            ),
            SearchResult::InterimResult(f) => SearchResultView::InterimResult(f@),
            SearchResult::SearchErrors(es) => SearchResultView::SearchErrors(es@),
        }
    }
}

/// What the aggregator does after a message.
#[derive(Debug)]
pub enum Step {
    /// Nothing to send: wait for the next message.
    Wait,
    /// Send this event to the consumer.
    Send(SearchResult),
    /// End the loop.
    Stop,
}

/// A step as plain values.
pub enum StepView {
    Wait,
    Send(SearchResultView),
    Stop,
}

impl View for Step {
    type V = StepView;

    open spec fn view(&self) -> StepView {
        match self {
            Step::Wait => StepView::Wait,
            Step::Send(e) => StepView::Send(e@),
            Step::Stop => StepView::Stop,
        }
    }
}

/// The aggregator's state as plain values.
pub struct AggregatorView {
    /// The generation of the latest search started.
    pub generation: usize,
    /// Whether that search still takes results: it has not yet sent `Done`.
    pub active: bool,
    /// The results of that search so far, in the order they came.
    pub buffer: Seq<FileInfoView>,
    /// The time its workers reported, in nanoseconds.
    pub elapsed: u64,
}

/// The sum of `a` and `b`, or the largest `u64` where it does not fit.
pub open spec fn saturating_sum(a: u64, b: u64) -> u64 {
    if a + b > u64::MAX {
        u64::MAX
    } else {
        (a + b) as u64
    }
}

/// A message of generation `g` is taken in state `a`.
pub open spec fn accepts(a: AggregatorView, g: usize) -> bool {
    a.active && a.generation == g
}

/// The state after message `m` in state `a`.
pub open spec fn next_state(a: AggregatorView, m: MessageView) -> AggregatorView {
    match m {
        MessageView::StartSearch(g) => AggregatorView {
            generation: g,
            active: true,
            buffer: Seq::empty(),
            elapsed: 0,
        },
        MessageView::File(f, g) => if accepts(a, g) {
            AggregatorView { buffer: a.buffer.push(f), ..a }
        } else {
            a
        },
        MessageView::ContentFiles(fs, g, dt) => if accepts(a, g) {
            AggregatorView { buffer: a.buffer + fs, elapsed: saturating_sum(a.elapsed, dt), ..a }
        } else {
            a
        },
        MessageView::Done(g, dt) => if accepts(a, g) {
            AggregatorView {
                active: false,
                buffer: Seq::empty(),
                elapsed: saturating_sum(a.elapsed, dt),
                ..a
            }
        } else {
            a
        },
        MessageView::FileErrors(_) => a,
        MessageView::Quit => a,
    }
}

/// `s` is what the aggregator does on message `m` in state `a`, with the
/// configured order `sort`: an interim event for each entry found by name,
/// every error list, one final event when the search's worker is done, and
/// nothing for a message of another search.
pub open spec fn emits(a: AggregatorView, m: MessageView, sort: Sort, s: StepView) -> bool {
    match m {
        MessageView::File(f, g) => if accepts(a, g) {
            s == StepView::Send(SearchResultView::InterimResult(f))
        } else {
            s == StepView::Wait
        },
        MessageView::Done(g, dt) => if accepts(a, g) {
            match s {
                StepView::Send(SearchResultView::FinalResults(fr)) => {
                    &&& fr.id == g
                    &&& fr.duration_nanos == saturating_sum(a.elapsed, dt)
                    &&& stably_sorted(fr.data, a.buffer, sort)
                },
                _ => false,
            }
        } else {
            s == StepView::Wait
        },
        MessageView::FileErrors(es) => s == StepView::Send(SearchResultView::SearchErrors(es)),
        MessageView::Quit => s == StepView::Stop,
        _ => s == StepView::Wait,
    }
}

/// The state after the messages `ms`, in order, starting from `a`.
pub open spec fn run(a: AggregatorView, ms: Seq<MessageView>) -> AggregatorView
    decreases ms.len(),
{
    if ms.len() == 0 {
        a
    } else {
        next_state(run(a, ms.drop_last()), ms.last())
    }
}

/// The entries that message `m` carries for generation `g`.
pub open spec fn entries_for(m: MessageView, g: usize) -> Seq<FileInfoView> {
    match m {
        MessageView::File(f, h) => if h == g {
            seq![f]
        } else {
            Seq::empty()
        },
        MessageView::ContentFiles(fs, h, _) => if h == g {
            fs
        } else {
            Seq::empty()
        },
        _ => Seq::empty(),
    }
}

/// The entries that the messages `ms` carry for generation `g`, in order.
pub open spec fn tagged_entries(ms: Seq<MessageView>, g: usize) -> Seq<FileInfoView>
    decreases ms.len(),
{
    if ms.len() == 0 {
        Seq::empty()
    } else {
        tagged_entries(ms.drop_last(), g) + entries_for(ms.last(), g)
    }
}

/// How many of the messages `ms` are entries found by name for generation
/// `g`: each gives one interim event.
pub open spec fn interim_count(ms: Seq<MessageView>, g: usize) -> nat
    decreases ms.len(),
{
    if ms.len() == 0 {
        0
    } else {
        interim_count(ms.drop_last(), g) + match ms.last() {
            MessageView::File(_, h) => if h == g {
                1nat
            } else {
                0nat
            },
            _ => 0nat,
        }
    }
}

/// How many entries the content scans among `ms` carry for generation `g`.
pub open spec fn content_count(ms: Seq<MessageView>, g: usize) -> nat
    decreases ms.len(),
{
    if ms.len() == 0 {
        0
    } else {
        content_count(ms.drop_last(), g) + match ms.last() {
            MessageView::ContentFiles(fs, h, _) => if h == g {
                fs.len()
            } else {
                0nat
            },
            _ => 0nat,
        }
    }
}

/// No message of `ms` starts a search or ends generation `g`.
pub open spec fn within_search(ms: Seq<MessageView>, g: usize) -> bool {
    forall|i: int|
        0 <= i < ms.len() ==> !(#[trigger] ms[i] is StartSearch) && !(ms[i] matches MessageView::Done(
            h,
            _,
        ) && h == g)
}

/// The generation that message `m` carries, for those that carry one.
pub open spec fn tag(m: MessageView) -> Option<usize> {
    match m {
        MessageView::File(_, g) => Some(g),
        MessageView::ContentFiles(_, g, _) => Some(g),
        MessageView::Done(g, _) => Some(g),
        MessageView::StartSearch(g) => Some(g),
        _ => None,
    }
}

/// While a search runs, its state keeps its generation and gathers exactly
/// the entries that the messages carry for it.
pub proof fn lemma_run_gathers(a: AggregatorView, ms: Seq<MessageView>)
    requires
        a.active,
        within_search(ms, a.generation),
    ensures
        run(a, ms).generation == a.generation,
        run(a, ms).active,
        run(a, ms).buffer == a.buffer + tagged_entries(ms, a.generation),
        tagged_entries(ms, a.generation).len() == interim_count(ms, a.generation) + content_count(
            ms,
            a.generation,
        ),
    decreases ms.len(),
{
    if ms.len() == 0 {
        assert(a.buffer + Seq::<FileInfoView>::empty() =~= a.buffer);
    } else {
        let init = ms.drop_last();
        assert forall|i: int| 0 <= i < init.len() implies !(#[trigger] init[i] is StartSearch) && !(
        init[i] matches MessageView::Done(h, _) && h == a.generation) by {
            assert(init[i] == ms[i]);
        }
        lemma_run_gathers(a, init);
        let last = ms.last();
        assert(!(ms[ms.len() - 1] is StartSearch));
        assert((a.buffer + tagged_entries(init, a.generation)) + entries_for(last, a.generation)
            =~= a.buffer + tagged_entries(ms, a.generation));
    }
}

/// Every entry of a search reaches its final results once: the final
/// results hold exactly the entries carried for the search between its start
/// and its end, stably sorted, as many as its interim events and the entries
/// of its content scans together.
pub proof fn lemma_final_holds_every_entry(
    a: AggregatorView,
    g: usize,
    ms: Seq<MessageView>,
    dt: u64,
    sort: Sort,
    s: StepView,
)
    requires
        within_search(ms, g),
        emits(run(next_state(a, MessageView::StartSearch(g)), ms), MessageView::Done(g, dt), sort, s),
    ensures
        s matches StepView::Send(SearchResultView::FinalResults(fr)) && fr.id == g && stably_sorted(
            fr.data,
            tagged_entries(ms, g),
            sort,
        ) && fr.data.len() == interim_count(ms, g) + content_count(ms, g),
{
    let start = next_state(a, MessageView::StartSearch(g));
    lemma_run_gathers(start, ms);
    assert(Seq::<FileInfoView>::empty() + tagged_entries(ms, g) =~= tagged_entries(ms, g));
    if let StepView::Send(SearchResultView::FinalResults(fr)) = s {
        lemma_stably_sorted_len(fr.data, tagged_entries(ms, g), sort);
    }
}

/// Once a search has started, nothing from an earlier or other search
/// reaches the consumer until the next search starts: such a message changes
/// nothing and gives no event.
pub proof fn lemma_superseded_messages_dropped(
    a: AggregatorView,
    g: usize,
    ms: Seq<MessageView>,
    m: MessageView,
    sort: Sort,
    s: StepView,
)
    requires
        forall|i: int| 0 <= i < ms.len() ==> !(#[trigger] ms[i] is StartSearch),
        m is File || m is ContentFiles || m is Done,
        tag(m) != Some(g),
        emits(run(next_state(a, MessageView::StartSearch(g)), ms), m, sort, s),
    ensures
        s == StepView::Wait,
        next_state(run(next_state(a, MessageView::StartSearch(g)), ms), m) == run(
            next_state(a, MessageView::StartSearch(g)),
            ms,
        ),
{
    lemma_generation_kept(next_state(a, MessageView::StartSearch(g)), ms);
}

/// Without a new start, the generation stays.
pub proof fn lemma_generation_kept(a: AggregatorView, ms: Seq<MessageView>)
    requires
        forall|i: int| 0 <= i < ms.len() ==> !(#[trigger] ms[i] is StartSearch),
    ensures
        run(a, ms).generation == a.generation,
    decreases ms.len(),
{
    if ms.len() > 0 {
        let init = ms.drop_last();
        assert forall|i: int| 0 <= i < init.len() implies !(#[trigger] init[i] is StartSearch) by {
            assert(init[i] == ms[i]);
        }
        lemma_generation_kept(a, init);
        assert(!(ms[ms.len() - 1] is StartSearch));
    }
}

/// Merges the messages of the workers into interim and final results, and
/// drops those of superseded searches.
pub struct Aggregator {
    generation: usize,
    active: bool,
    buffer: Vec<FileInfo>,
    elapsed: u64,
}

impl View for Aggregator {
    type V = AggregatorView;

    closed spec fn view(&self) -> AggregatorView {
        AggregatorView {
            generation: self.generation,
            active: self.active,
            buffer: views(self.buffer@),
            elapsed: self.elapsed,
        }
    }
}

impl Aggregator {
    /// An aggregator before any search.
    pub fn new() -> (r: Aggregator)
        ensures
            r@ == (AggregatorView { generation: 0, active: false, buffer: Seq::empty(), elapsed: 0 }),
    {
        let r = Aggregator { generation: 0, active: false, buffer: Vec::new(), elapsed: 0 };
        assert(views(r.buffer@) =~= Seq::empty());
        r
    }

    /// Takes one message; `sort` is the configured order of final results.
    pub fn receive(&mut self, message: Message, sort: Sort) -> (r: Step)
        ensures
            final(self)@ == next_state(old(self)@, message@),
            emits(old(self)@, message@, sort, r@),
    {
        match message {
            Message::StartSearch(g) => {
                self.generation = g;
                self.active = true;
                self.buffer = Vec::new();
                self.elapsed = 0;
                assert(views(self.buffer@) =~= Seq::empty());
                Step::Wait
            },
            Message::File(f, g) => {
                if !(self.active && self.generation == g) {
                    return Step::Wait;
                }
                let ghost before = self.buffer@;
                self.buffer.push(f.clone());
                assert(views(self.buffer@) =~= views(before).push(f@));
                Step::Send(SearchResult::InterimResult(f))
            },
            Message::ContentFiles(fs, g, dt) => {
                if !(self.active && self.generation == g) {
                    return Step::Wait;
                }
                let ghost before = self.buffer@;
                let mut fs = fs;
                let ghost added = fs@;
                self.buffer.append(&mut fs);
                assert(views(self.buffer@) =~= views(before) + views(added));
                self.elapsed = self.elapsed.saturating_add(dt);
                Step::Wait
            },
            Message::Done(g, dt) => {
                if !(self.active && self.generation == g) {
                    return Step::Wait;
                }
                let mut data: Vec<FileInfo> = Vec::new();
                std::mem::swap(&mut data, &mut self.buffer);
                assert(views(self.buffer@) =~= Seq::empty());
                Manager::do_sort(&mut data, sort);
                self.active = false;
                self.elapsed = self.elapsed.saturating_add(dt);
                Step::Send(
                    SearchResult::FinalResults(
                        FinalResults { data, duration_nanos: self.elapsed, id: g },
                    ),
                )
            },
            Message::FileErrors(es) => Step::Send(SearchResult::SearchErrors(es)),
            Message::Quit => Step::Stop,
        }
    }
}

} // verus!
