//! A single fuzzy-selection session: a feed of selectable items is
//! produced, the feed is closed, the user's interactive engine filters
//! and ranks the items, and the session ends with exactly one committed
//! item or with cancellation. This module owns the item feed, the
//! session's state machine, and the interpretation of what the engine
//! reports; the terminal interaction itself runs outside.

use vstd::prelude::*;

use crate::collect::NicknamedDir;
use crate::config::{GotoFile, Project};

verus! {

/// The failures this engine distinguishes. Per-alias and per-preview
/// failures degrade gracefully and never reach here.
#[derive(PartialEq, Eq, Structural, Clone, Copy, Debug)]
pub enum GotoError {
    /// The configuration could not supply any projects.
    ConfigUnavailable,
    /// The user explicitly aborted the interactive session.
    SelectionCancelled,
    /// The selection engine reported zero or several committed items
    /// when exactly one was expected.
    AmbiguousSelectionResult,
}

/// An item a selection session can offer: it shows a display text to be
/// matched against, and names the path its preview should render.
pub trait SelectItem {
    spec fn display_spec(&self) -> Seq<char>;

    spec fn preview_target_spec(&self) -> Seq<char>;

    fn display_text(&self) -> (r: &str)
        ensures
            r@ == self.display_spec(),
    ;

    fn preview_target(&self) -> (r: &str)
        ensures
            r@ == self.preview_target_spec(),
    ;
}

impl SelectItem for Project {
    open spec fn display_spec(&self) -> Seq<char> {
        self.root@
    }

    open spec fn preview_target_spec(&self) -> Seq<char> {
        self.root@
    }

    fn display_text(&self) -> (r: &str) {
        self.root.as_str()
    }

    fn preview_target(&self) -> (r: &str) {
        self.root.as_str()
    }
}

impl SelectItem for NicknamedDir {
    open spec fn display_spec(&self) -> Seq<char> {
        self.short@
    }

    open spec fn preview_target_spec(&self) -> Seq<char> {
        self.path@
    }

    fn display_text(&self) -> (r: &str) {
        self.short.as_str()
    }

    fn preview_target(&self) -> (r: &str) {
        self.path.as_str()
    }
}

/// What the interactive engine reported when the session ended: whether
/// the user aborted, and the indices of the committed items within the
/// feed. A well-behaved engine commits exactly one.
pub struct SelectionOutcome {
    pub aborted: bool,
    pub chosen: Vec<usize>,
}

/// The item feed of one session: items are pushed by the producer, and
/// the feed closes when the session runs, so the engine knows no more
/// items are coming.
pub struct FuzzyMenu<T> {
    items: Vec<T>,
}

impl<T: SelectItem> FuzzyMenu<T> {
    /// The items fed so far, in feed order.
    pub closed spec fn items(self) -> Seq<T> {
        self.items@
    }

    pub fn new() -> (m: FuzzyMenu<T>)
        ensures
            m.items() == Seq::<T>::empty(),
    {
        let m = FuzzyMenu { items: Vec::new() };
        proof {
            assert(m.items() =~= Seq::<T>::empty());
        }
        m
    }

    /// Feeds one more item to the session.
    pub fn add_option(&mut self, item: T)
        ensures
            final(self).items() == old(self).items().push(item),
    {
        self.items.push(item);
    }

    /// Closes the feed and interprets what the engine reported:
    /// cancellation is its own outcome, a single committed item is
    /// returned exactly as it was fed, and anything else is the
    /// engine breaking the one-committed-item expectation. An empty feed
    /// cancels like any other. `initial_query` pre-seeds the engine's
    /// search box and does not affect the interpretation.
    pub fn run(self, initial_query: &str, outcome: SelectionOutcome) -> (r: Result<T, GotoError>)
        ensures
            outcome.aborted ==> r == Result::<T, GotoError>::Err(GotoError::SelectionCancelled),
            !outcome.aborted && outcome.chosen@.len() == 1 && (outcome.chosen@[0] as int)
                < self.items().len() ==> (r matches Ok(it) && it == self.items()[outcome.chosen@[0] as int]),
            !outcome.aborted && !(outcome.chosen@.len() == 1 && (outcome.chosen@[0] as int)
                < self.items().len()) ==> r == Result::<T, GotoError>::Err(
                GotoError::AmbiguousSelectionResult,
            ),
    {
        if outcome.aborted {
            return Err(GotoError::SelectionCancelled);
        }
        if outcome.chosen.len() != 1 {
            return Err(GotoError::AmbiguousSelectionResult);
        }
        let idx = outcome.chosen[0];
        let mut items = self.items;
        if idx < items.len() {
            Ok(items.remove(idx))
        } else {
            Err(GotoError::AmbiguousSelectionResult)
        }
    }
}

/// Where a selection session stands: not yet opened, waiting at the
/// prompt, re-ranking after an edit, or ended — with one committed item
/// (by feed index) or cancelled.
#[derive(Clone, Copy)]
pub enum SessionState {
    Idle,
    AwaitingInput,
    Filtering,
    Committed(usize),
    Cancelled,
}

/// What can happen to a session: it opens, the query is edited, the
/// engine finishes re-ranking, the user commits the item at a feed
/// index, or the user cancels.
#[derive(Clone, Copy)]
pub enum SessionEvent {
    Opened,
    QueryEdited,
    Ranked,
    Commit(usize),
    Cancel,
}

/// A session has ended once it is committed or cancelled.
pub open spec fn is_terminal(s: SessionState) -> bool {
    s is Committed || s is Cancelled
}

/// The session's transitions over a feed of `n` items. Terminal states
/// absorb every event; a commit is taken only while the session is live
/// and only at an index the feed holds; any other pairing of state and
/// event leaves the state as it is.
pub open spec fn step_spec(s: SessionState, e: SessionEvent, n: nat) -> SessionState {
    if is_terminal(s) {
        s
    } else {
        match (s, e) {
            (SessionState::Idle, SessionEvent::Opened) => SessionState::AwaitingInput,
            (SessionState::AwaitingInput, SessionEvent::QueryEdited) => SessionState::Filtering,
            (SessionState::Filtering, SessionEvent::Ranked) => SessionState::AwaitingInput,
            (_, SessionEvent::Commit(i)) => if s is Idle || i >= n {
                s
            } else {
                SessionState::Committed(i)
            },
            (_, SessionEvent::Cancel) => if s is Idle {
                s
            } else {
                SessionState::Cancelled
            },
            _ => s,
        }
    }
}

/// Takes one session step.
pub fn step(s: SessionState, e: SessionEvent, n: usize) -> (r: SessionState)
    ensures
        r == step_spec(s, e, n as nat),
{
    match s {
        SessionState::Committed(_) => s,
        SessionState::Cancelled => s,
        SessionState::Idle => match e {
            SessionEvent::Opened => SessionState::AwaitingInput,
            _ => s,
        },
        SessionState::AwaitingInput => match e {
            SessionEvent::QueryEdited => SessionState::Filtering,
            SessionEvent::Commit(i) => if i < n {
                SessionState::Committed(i)
            } else {
                s
            },
            SessionEvent::Cancel => SessionState::Cancelled,
            _ => s,
        },
        SessionState::Filtering => match e {
            SessionEvent::Ranked => SessionState::AwaitingInput,
            SessionEvent::Commit(i) => if i < n {
                SessionState::Committed(i)
            } else {
                s
            },
            SessionEvent::Cancel => SessionState::Cancelled,
            _ => s,
        },
    }
}

/// The state a session reaches from `s` after the whole event sequence.
pub open spec fn run_events_spec(s: SessionState, es: Seq<SessionEvent>, n: nat) -> SessionState
    decreases es.len(),
{
    if es.len() == 0 {
        s
    } else {
        run_events_spec(step_spec(s, es[0], n), es.drop_first(), n)
    }
}

/// Replays a whole session from its initial state.
pub fn drive_session(events: &Vec<SessionEvent>, n: usize) -> (s: SessionState)
    ensures
        s == run_events_spec(SessionState::Idle, events@, n as nat),
{
    let mut s = SessionState::Idle;
    let m = events.len();
    let mut i: usize = 0;
    proof {
        assert(events@.skip(0) =~= events@);
    }
    while i < m
        invariant
            m == events@.len(),
            i <= m,
            run_events_spec(SessionState::Idle, events@, n as nat) == run_events_spec(
                s,
                events@.skip(i as int),
                n as nat,
            ),
        decreases m - i,
    {
        proof {
            assert(events@.skip(i as int)[0] == events@[i as int]);
            assert(events@.skip(i as int).drop_first() =~= events@.skip(i as int + 1));
        }
        s = step(s, events[i], n);
        i += 1;
    }
    s
}

/// Terminal states end the session: no later event moves it.
pub proof fn lemma_terminal_absorbs(s: SessionState, es: Seq<SessionEvent>, n: nat)
    requires
        is_terminal(s),
    ensures
        run_events_spec(s, es, n) == s,
    decreases es.len(),
{
    if es.len() > 0 {
        lemma_terminal_absorbs(s, es.drop_first(), n);
    }
}

/// A session over `n` items never commits an index the feed does not
/// hold, whatever the events were.
pub proof fn lemma_commit_in_range(s: SessionState, es: Seq<SessionEvent>, n: nat)
    requires
        s matches SessionState::Committed(i) ==> i < n,
    ensures
        run_events_spec(s, es, n) matches SessionState::Committed(i) ==> i < n,
    decreases es.len(),
{
    if es.len() > 0 {
        lemma_commit_in_range(step_spec(s, es[0], n), es.drop_first(), n);
    }
}

/// Runs one session over the stored projects (display text: the root
/// path) and returns the project the user committed, or the distinct
/// cancellation outcome. This is the first stage of the two-stage
/// pipeline used when no project matches the working directory.
pub fn fuzzy_select_project(goto_file: GotoFile, outcome: SelectionOutcome) -> (r: Result<
    Project,
    GotoError,
>)
    ensures
        outcome.aborted ==> (r matches Err(e) && e == GotoError::SelectionCancelled),
        !outcome.aborted && outcome.chosen@.len() == 1 && (outcome.chosen@[0] as int)
            < goto_file.projects@.len() ==> (r matches Ok(p) && p == goto_file.projects@[outcome.chosen@[0] as int]),
        !outcome.aborted && !(outcome.chosen@.len() == 1 && (outcome.chosen@[0] as int)
            < goto_file.projects@.len()) ==> (r matches Err(e) && e
            == GotoError::AmbiguousSelectionResult),
{
    let ghost all = goto_file.projects@;
    let mut menu: FuzzyMenu<Project> = FuzzyMenu::new();
    let mut projects = goto_file.projects;
    while projects.len() > 0
        invariant
            menu.items() + projects@ =~= all,
        decreases projects@.len(),
    {
        let p = projects.remove(0);
        menu.add_option(p);
    }
    proof {
        assert(menu.items() =~= all);
    }
    menu.run("", outcome)
}

} // verus!
