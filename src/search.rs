//! The bounded best-move search, driven by events.
//!
//! A search sets the position and starts an unbounded search. Once the soft
//! budget has passed without an answer it asks the engine to stop, once; once
//! the hard budget (twice the soft one) has passed it gives up with no
//! result. A best move that arrives before that ends the search at once.
//!
//! The driver waits for whichever comes first of a poll interval passing, a
//! line arriving, or the engine's input accepting a write, reports the time
//! elapsed since the search started after each wait, and performs the
//! actions that `Search::step` returns.
use vstd::prelude::*;
use std::collections::VecDeque;
use crate::codec::{GoCommand, GuiCommand, PositionBase};
use crate::incoming::{BestMove, EngineMessage};

verus! {

/// How many times the soft budget the search waits before it gives up.
pub const HARD_BUDGET_FACTOR: u64 = 2;

/// The poll interval is this fraction of the soft budget.
pub const POLL_DIVISOR: u64 = 10;

/// A best-move query: the position, the moves played from it, and the soft budget.
pub struct SearchRequest {
    pub base: PositionBase,
    pub moves: Vec<String>,
    pub soft_budget_ms: u64,
}

/// What happened while the driver waited.
pub enum SearchEvent {
    /// This many milliseconds have passed since the search started.
    Tick(u64),
    /// A line arrived and was decoded.
    Received(EngineMessage),
    /// The engine's input can take a write.
    Writable,
}

/// What the driver does next.
pub enum SearchAction {
    /// Write this command to the engine.
    Send(GuiCommand),
    /// Wait for the next event.
    Wait,
    /// The search is over, with a best move or with none.
    Resolve(Option<BestMove>),
}

/// The state of one search.
pub struct Search {
    pub soft_budget_ms: u64,
    pub queue: VecDeque<GuiCommand>,
    pub stop_requested: bool,
    pub resolved: bool,
}

pub struct SearchView {
    pub soft_budget_ms: u64,
    pub queue: Seq<GuiCommand>,
    pub stop_requested: bool,
    pub resolved: bool,
}

impl View for Search {
    type V = SearchView;

    open spec fn view(&self) -> SearchView {
        SearchView {
            soft_budget_ms: self.soft_budget_ms,
            queue: self.queue@,
            stop_requested: self.stop_requested,
            resolved: self.resolved,
        }
    }
}

/// The commands a search starts with: the position, then an unbounded search.
pub open spec fn opening_commands(base: PositionBase, moves: Vec<String>) -> Seq<GuiCommand> {
    seq![GuiCommand::Position(base, moves), GuiCommand::Go(GoCommand::Infinite)]
}

/// The hard budget of a search.
pub open spec fn hard_budget(soft: u64) -> int {
    HARD_BUDGET_FACTOR * soft
}

/// One step of a search.
pub open spec fn search_step(s: SearchView, ev: SearchEvent) -> (SearchView, SearchAction) {
    if s.resolved {
        (s, SearchAction::Wait)
    } else {
        match ev {
            SearchEvent::Tick(t) => if t > hard_budget(s.soft_budget_ms) {
                (SearchView { resolved: true, ..s }, SearchAction::Resolve(None))
            } else if t > s.soft_budget_ms && !s.stop_requested {
                (
                    SearchView { queue: s.queue.push(GuiCommand::Stop), stop_requested: true, ..s },
                    SearchAction::Wait,
                )
            } else {
                (s, SearchAction::Wait)
            },
            SearchEvent::Received(m) => match m {
                EngineMessage::BestMove(bm) => (
                    SearchView { resolved: true, ..s },
                    SearchAction::Resolve(Some(bm)),
                ),
                _ => (s, SearchAction::Wait),
            },
            SearchEvent::Writable => if s.queue.len() == 0 {
                (s, SearchAction::Wait)
            } else {
                (SearchView { queue: s.queue.drop_first(), ..s }, SearchAction::Send(s.queue[0]))
            },
        }
    }
}

/// The state and the actions after a run of events.
pub open spec fn search_run(s: SearchView, evs: Seq<SearchEvent>) -> (SearchView, Seq<SearchAction>)
    decreases evs.len(),
{
    if evs.len() == 0 {
        (s, Seq::empty())
    } else {
        let (t, acts) = search_run(s, evs.drop_last());
        let (u, a) = search_step(t, evs.last());
        (u, acts.push(a))
    }
}

/// The commands written by a run of actions, in order.
pub open spec fn search_sent(acts: Seq<SearchAction>) -> Seq<GuiCommand>
    decreases acts.len(),
{
    if acts.len() == 0 {
        Seq::empty()
    } else {
        match acts.last() {
            SearchAction::Send(c) => search_sent(acts.drop_last()).push(c),
            _ => search_sent(acts.drop_last()),
        }
    }
}

/// The commands a search has written or still holds, given how it started.
pub open spec fn search_script(start: Seq<GuiCommand>, stop_requested: bool) -> Seq<GuiCommand> {
    if stop_requested { start.push(GuiCommand::Stop) } else { start }
}

/// How many stop commands a sequence holds.
pub open spec fn stop_count(cs: Seq<GuiCommand>) -> nat
    decreases cs.len(),
{
    if cs.len() == 0 {
        0
    } else {
        stop_count(cs.drop_last()) + if cs.last() is Stop { 1nat } else { 0nat }
    }
}

impl Search {
    /// Starts a search: the position and the go command are queued.
    pub fn start(req: SearchRequest) -> (r: Self)
        ensures
            r@ == (SearchView {
                soft_budget_ms: req.soft_budget_ms,
                queue: opening_commands(req.base, req.moves),
                stop_requested: false,
                resolved: false,
            }),
    {
        let mut queue: VecDeque<GuiCommand> = VecDeque::new();
        queue.push_back(GuiCommand::Position(req.base, req.moves));
        queue.push_back(GuiCommand::Go(GoCommand::Infinite));
        assert(queue@ =~= opening_commands(req.base, req.moves));
        Search { soft_budget_ms: req.soft_budget_ms, queue, stop_requested: false, resolved: false }
    }

    /// How long the driver waits between two looks at the clock: a tenth of
    /// the soft budget, and at least one millisecond.
    pub fn poll_interval_ms(&self) -> (r: u64)
        ensures
            r == if self.soft_budget_ms / POLL_DIVISOR == 0 { 1 } else { self.soft_budget_ms / POLL_DIVISOR },
    {
        let p = self.soft_budget_ms / POLL_DIVISOR;
        if p == 0 { 1 } else { p }
    }

    /// Takes one event and returns the action that follows it.
    pub fn step(&mut self, ev: SearchEvent) -> (r: SearchAction)
        ensures
            (final(self)@, r) == search_step(old(self)@, ev),
    {
        if self.resolved {
            return SearchAction::Wait;
        }
        match ev {
            SearchEvent::Tick(t) => {
                let soft = self.soft_budget_ms;
                if t > soft && t - soft > soft {
                    self.resolved = true;
                    SearchAction::Resolve(None)
                } else if t > soft && !self.stop_requested {
                    self.queue.push_back(GuiCommand::Stop);
                    self.stop_requested = true;
                    SearchAction::Wait
                } else {
                    SearchAction::Wait
                }
            },
            SearchEvent::Received(m) => match m {
                EngineMessage::BestMove(bm) => {
                    self.resolved = true;
                    SearchAction::Resolve(Some(bm))
                },
                _ => SearchAction::Wait,
            },
            SearchEvent::Writable => match self.queue.pop_front() {
                Some(c) => SearchAction::Send(c),
                None => SearchAction::Wait,
            },
        }
    }

    /// Whether the search is over.
    pub fn is_resolved(&self) -> (r: bool)
        ensures
            r == self@.resolved,
    {
        self.resolved
    }
}

/// A best move that arrives while the search is open ends it at once with
/// that move, whatever the time; a tick before the soft budget neither ends
/// the search nor asks the engine to stop.
pub proof fn lemma_answer_resolves_at_once(s: SearchView, bm: BestMove, t: u64)
    requires
        !s.resolved,
    ensures
        search_step(s, SearchEvent::Received(EngineMessage::BestMove(bm)))
            == (SearchView { resolved: true, ..s }, SearchAction::Resolve(Some(bm))),
        t <= s.soft_budget_ms ==> search_step(s, SearchEvent::Tick(t)) == (s, SearchAction::Wait),
{
}

/// An open search that reaches a tick past its hard budget ends with no
/// result; one past its soft budget has asked the engine to stop.
pub proof fn lemma_budgets(s: SearchView, t: u64)
    requires
        !s.resolved,
    ensures
        t > hard_budget(s.soft_budget_ms) ==> search_step(s, SearchEvent::Tick(t))
            == (SearchView { resolved: true, ..s }, SearchAction::Resolve(None)),
        s.soft_budget_ms < t <= hard_budget(s.soft_budget_ms) ==> search_step(
            s,
            SearchEvent::Tick(t),
        ).0.stop_requested && search_step(s, SearchEvent::Tick(t)).1 is Wait,
{
}

/// Over any run of events, the commands written followed by those still
/// queued are the opening commands, then one stop if the soft budget has
/// passed: a stop is sent at most once, and everything leaves in order.
pub proof fn lemma_search_script(s: SearchView, evs: Seq<SearchEvent>)
    requires
        !s.stop_requested,
    ensures
        search_sent(search_run(s, evs).1) + search_run(s, evs).0.queue
            == search_script(s.queue, search_run(s, evs).0.stop_requested),
    decreases evs.len(),
{
    if evs.len() > 0 {
        lemma_search_script(s, evs.drop_last());
        let (t, acts) = search_run(s, evs.drop_last());
        let (u, a) = search_step(t, evs.last());
        assert(acts.push(a).drop_last() =~= acts);
        if !t.resolved {
            match evs.last() {
                SearchEvent::Writable => {
                    if t.queue.len() > 0 {
                        assert(search_sent(acts).push(t.queue[0]) + t.queue.drop_first()
                            =~= search_sent(acts) + t.queue);
                    }
                },
                SearchEvent::Tick(x) => {
                    if u.stop_requested && !t.stop_requested {
                        assert(search_sent(acts) + t.queue.push(GuiCommand::Stop)
                            =~= (search_sent(acts) + t.queue).push(GuiCommand::Stop));
                    }
                },
                _ => {},
            }
        }
    } else {
        assert(Seq::<GuiCommand>::empty() + s.queue =~= s.queue);
    }
}

/// A search started from a request sends at most one stop over any run of
/// events; once it has asked for a stop, exactly one stop has been sent or
/// waits to be sent.
pub proof fn lemma_at_most_one_stop(req_base: PositionBase, req_moves: Vec<String>, soft: u64, evs: Seq<SearchEvent>)
    ensures
        ({
            let s = SearchView {
                soft_budget_ms: soft,
                queue: opening_commands(req_base, req_moves),
                stop_requested: false,
                resolved: false,
            };
            &&& stop_count(search_sent(search_run(s, evs).1)) <= 1
            &&& search_run(s, evs).0.stop_requested ==> stop_count(search_sent(search_run(s, evs).1))
                + stop_count(search_run(s, evs).0.queue) == 1
        }),
{
    let s = SearchView {
        soft_budget_ms: soft,
        queue: opening_commands(req_base, req_moves),
        stop_requested: false,
        resolved: false,
    };
    lemma_search_script(s, evs);
    let sent = search_sent(search_run(s, evs).1);
    let q = search_run(s, evs).0.queue;
    let script = search_script(s.queue, search_run(s, evs).0.stop_requested);
    lemma_stop_count_append(sent, q);
    assert(stop_count(s.queue) == 0) by {
        let q0 = s.queue;
        assert(q0.drop_last().drop_last() =~= Seq::<GuiCommand>::empty());
        assert(q0.last() == GuiCommand::Go(GoCommand::Infinite));
        assert(q0.drop_last().last() == GuiCommand::Position(req_base, req_moves));
        assert(stop_count(q0.drop_last().drop_last()) == 0);
        assert(stop_count(q0.drop_last()) == 0);
    }
    if search_run(s, evs).0.stop_requested {
        assert(script.drop_last() == s.queue);
        assert(stop_count(script) == 1);
    }
}

proof fn lemma_stop_count_append(a: Seq<GuiCommand>, b: Seq<GuiCommand>)
    ensures
        stop_count(a + b) == stop_count(a) + stop_count(b),
    decreases b.len(),
{
    if b.len() == 0 {
        assert(a + b =~= a);
    } else {
        lemma_stop_count_append(a, b.drop_last());
        assert((a + b).drop_last() =~= a + b.drop_last());
    }
}

} // verus!
