//! The decisions of a renaming run, as a state machine.
//!
//! A driver feeds [`Event`]s, each the outcome of the last [`Action`] it
//! performed, to [`Renamer::step`], and performs the action that comes back.
//! Roots are handled one after the other; within a root, the files of the
//! walk one after the other. Directories and entries that could not be listed
//! are passed over; a root that cannot be resolved, a file that cannot be read
//! and a rename that fails end the run.
use vstd::prelude::*;

use vstd::slice::slice_to_vec;

use crate::naming::{dir_of, target_of, target_path};

verus! {

/// The root used when none is given: the current directory.
pub const CURRENT_DIR: u8 = 46;

/// Why a run stopped early.
#[derive(Debug, PartialEq, Eq)]
pub enum RunError {
    /// This root does not exist or cannot be resolved.
    PathResolution(Vec<u8>),
    /// This file could not be opened or read.
    Read(Vec<u8>),
    /// Moving the first path to the second failed.
    Rename(Vec<u8>, Vec<u8>),
}

/// The mathematical form of a [`RunError`]: its paths as byte sequences.
pub enum RunErrorView {
    PathResolution(Seq<u8>),
    Read(Seq<u8>),
    Rename(Seq<u8>, Seq<u8>),
}

impl View for RunError {
    type V = RunErrorView;

    open spec fn view(&self) -> RunErrorView {
        match self {
            RunError::PathResolution(p) => RunErrorView::PathResolution(p@),
            RunError::Read(p) => RunErrorView::Read(p@),
            RunError::Rename(a, b) => RunErrorView::Rename(a@, b@),
        }
    }
}

/// What happened, as reported by the driver.
#[derive(Debug, PartialEq, Eq)]
pub enum Event {
    /// The driver is ready to begin.
    Started,
    /// The root being resolved has this canonical path.
    Resolved(Vec<u8>),
    /// The root being resolved could not be resolved.
    NotResolved,
    /// The walk produced this path; the flag tells whether it is a directory.
    Entry(Vec<u8>, bool),
    /// The walk could not list an entry.
    Unlisted,
    /// The walk of the current root is over.
    WalkEnded,
    /// The file asked for holds these bytes.
    Contents(Vec<u8>),
    /// The file asked for could not be read.
    Unreadable,
    /// The rename asked for was done.
    Renamed,
    /// The rename asked for failed.
    RenameFailed,
}

/// The mathematical form of an [`Event`].
pub enum EventView {
    Started,
    Resolved(Seq<u8>),
    NotResolved,
    Entry(Seq<u8>, bool),
    Unlisted,
    WalkEnded,
    Contents(Seq<u8>),
    Unreadable,
    Renamed,
    RenameFailed,
}

impl View for Event {
    type V = EventView;

    open spec fn view(&self) -> EventView {
        match self {
            Event::Started => EventView::Started,
            Event::Resolved(p) => EventView::Resolved(p@),
            Event::NotResolved => EventView::NotResolved,
            Event::Entry(p, d) => EventView::Entry(p@, *d),
            Event::Unlisted => EventView::Unlisted,
            Event::WalkEnded => EventView::WalkEnded,
            Event::Contents(c) => EventView::Contents(c@),
            Event::Unreadable => EventView::Unreadable,
            Event::Renamed => EventView::Renamed,
            Event::RenameFailed => EventView::RenameFailed,
        }
    }
}

/// What the driver is to do next.
#[derive(Debug, PartialEq, Eq)]
pub enum Action {
    /// Resolve this root to its canonical path.
    Resolve(Vec<u8>),
    /// Walk the tree under this canonical path and report its first entry.
    Walk(Vec<u8>),
    /// Report the next entry of the walk.
    NextEntry,
    /// Read the whole file at this path.
    Read(Vec<u8>),
    /// Move the file at the first path to the second.
    Rename(Vec<u8>, Vec<u8>),
    /// The run is complete.
    Finish,
    /// The run stops with this error.
    Abort(RunError),
}

/// The mathematical form of an [`Action`].
pub enum ActionView {
    Resolve(Seq<u8>),
    Walk(Seq<u8>),
    NextEntry,
    Read(Seq<u8>),
    Rename(Seq<u8>, Seq<u8>),
    Finish,
    Abort(RunErrorView),
}

impl View for Action {
    type V = ActionView;

    open spec fn view(&self) -> ActionView {
        match self {
            Action::Resolve(p) => ActionView::Resolve(p@),
            Action::Walk(p) => ActionView::Walk(p@),
            Action::NextEntry => ActionView::NextEntry,
            Action::Read(p) => ActionView::Read(p@),
            Action::Rename(a, b) => ActionView::Rename(a@, b@),
            Action::Finish => ActionView::Finish,
            Action::Abort(e) => ActionView::Abort(e@),
        }
    }
}

/// Where a run stands.
pub enum Phase {
    /// Not started yet.
    Idle,
    /// Waiting for the current root to be resolved.
    Resolving,
    /// Waiting for the next entry of the walk.
    Walking,
    /// Waiting for the contents of this file.
    Reading(Vec<u8>),
    /// Waiting for the outcome of moving the first path to the second.
    Renaming(Vec<u8>, Vec<u8>),
    /// Every root was handled.
    Done,
    /// The run stopped on an error.
    Failed,
}

/// The mathematical form of a [`Phase`].
pub enum PhaseView {
    Idle,
    Resolving,
    Walking,
    Reading(Seq<u8>),
    Renaming(Seq<u8>, Seq<u8>),
    Done,
    Failed,
}

impl View for Phase {
    type V = PhaseView;

    open spec fn view(&self) -> PhaseView {
        match self {
            Phase::Idle => PhaseView::Idle,
            Phase::Resolving => PhaseView::Resolving,
            Phase::Walking => PhaseView::Walking,
            Phase::Reading(p) => PhaseView::Reading(p@),
            Phase::Renaming(a, b) => PhaseView::Renaming(a@, b@),
            Phase::Done => PhaseView::Done,
            Phase::Failed => PhaseView::Failed,
        }
    }
}

/// A run over a list of roots.
pub struct Renamer {
    roots: Vec<Vec<u8>>,
    current: usize,
    phase: Phase,
}

/// The mathematical form of a [`Renamer`].
pub struct RenamerView {
    /// The roots, in the order they are handled.
    pub roots: Seq<Seq<u8>>,
    /// The index of the root being handled.
    pub current: nat,
    pub phase: PhaseView,
}

impl View for Renamer {
    type V = RenamerView;

    closed spec fn view(&self) -> RenamerView {
        RenamerView {
            roots: self.roots@.map_values(|r: Vec<u8>| r@),
            current: self.current as nat,
            phase: self.phase@,
        }
    }
}

/// The roots a run handles: those given, or the current directory if none.
pub open spec fn roots_or_default(roots: Seq<Seq<u8>>) -> Seq<Seq<u8>> {
    if roots.len() == 0 {
        seq![seq![CURRENT_DIR]]
    } else {
        roots
    }
}

/// A run that has not started.
pub open spec fn initial(roots: Seq<Seq<u8>>) -> RenamerView {
    RenamerView { roots: roots_or_default(roots), current: 0, phase: PhaseView::Idle }
}

/// The events a run in state `s` expects.
pub open spec fn expects(s: RenamerView, e: EventView) -> bool {
    match s.phase {
        PhaseView::Idle => e is Started,
        PhaseView::Resolving => e is Resolved || e is NotResolved,
        PhaseView::Walking => e is Entry || e is Unlisted || e is WalkEnded,
        PhaseView::Reading(_) => e is Contents || e is Unreadable,
        PhaseView::Renaming(_, _) => e is Renamed || e is RenameFailed,
        PhaseView::Done => false,
        PhaseView::Failed => false,
    }
}

/// `s` in phase `p`.
pub open spec fn with_phase(s: RenamerView, p: PhaseView) -> RenamerView {
    RenamerView { phase: p, ..s }
}

/// The next state and action of a run in state `s` on event `e`.
pub open spec fn next(s: RenamerView, e: EventView) -> (RenamerView, ActionView) {
    match e {
        EventView::Started => (
            with_phase(s, PhaseView::Resolving),
            ActionView::Resolve(s.roots[s.current as int]),
        ),
        EventView::Resolved(c) => (with_phase(s, PhaseView::Walking), ActionView::Walk(c)),
        EventView::NotResolved => (
            with_phase(s, PhaseView::Failed),
            ActionView::Abort(RunErrorView::PathResolution(s.roots[s.current as int])),
        ),
        EventView::Entry(p, is_dir) => if is_dir {
            (s, ActionView::NextEntry)
        } else {
            (with_phase(s, PhaseView::Reading(p)), ActionView::Read(p))
        },
        EventView::Unlisted => (s, ActionView::NextEntry),
        EventView::WalkEnded => if s.current + 1 < s.roots.len() {
            (
                RenamerView { current: s.current + 1, phase: PhaseView::Resolving, ..s },
                ActionView::Resolve(s.roots[s.current + 1 as int]),
            )
        } else {
            (with_phase(s, PhaseView::Done), ActionView::Finish)
        },
        EventView::Contents(c) => {
            let p = s.phase->Reading_0;
            let t = target_of(p, c);
            (with_phase(s, PhaseView::Renaming(p, t)), ActionView::Rename(p, t))
        },
        EventView::Unreadable => (
            with_phase(s, PhaseView::Failed),
            ActionView::Abort(RunErrorView::Read(s.phase->Reading_0)),
        ),
        EventView::Renamed => (with_phase(s, PhaseView::Walking), ActionView::NextEntry),
        EventView::RenameFailed => (
            with_phase(s, PhaseView::Failed),
            ActionView::Abort(RunErrorView::Rename(s.phase->Renaming_0, s.phase->Renaming_1)),
        ),
    }
}

/// A directory reported by the walk is neither read nor renamed: the run
/// asks for the next entry and stays as it was.
pub proof fn lemma_directories_untouched(s: RenamerView, p: Seq<u8>)
    requires
        s.phase is Walking,
    ensures
        expects(s, EventView::Entry(p, true)),
        next(s, EventView::Entry(p, true)) == (s, ActionView::NextEntry),
{
}

/// Every file the walk reports is read, and then moved to the target that
/// its contents give.
pub proof fn lemma_files_renamed(s: RenamerView, p: Seq<u8>, c: Seq<u8>)
    requires
        s.phase is Walking,
    ensures
        ({
            let (s1, a1) = next(s, EventView::Entry(p, false));
            let (s2, a2) = next(s1, EventView::Contents(c));
            &&& a1 == ActionView::Read(p)
            &&& expects(s1, EventView::Contents(c))
            &&& a2 == ActionView::Rename(p, target_of(p, c))
        }),
{
}

/// A first root that cannot be resolved ends the run before anything is
/// read or renamed: the run asks only to resolve it, then aborts, and
/// expects no further event.
pub proof fn lemma_unresolvable_root_aborts(roots: Seq<Seq<u8>>)
    ensures
        ({
            let r = roots_or_default(roots)[0];
            let (s1, a1) = next(initial(roots), EventView::Started);
            let (s2, a2) = next(s1, EventView::NotResolved);
            &&& expects(initial(roots), EventView::Started)
            &&& a1 == ActionView::Resolve(r)
            &&& expects(s1, EventView::NotResolved)
            &&& a2 == ActionView::Abort(RunErrorView::PathResolution(r))
            &&& forall|e: EventView| !expects(s2, e)
        }),
{
}

impl Renamer {
    /// The run's invariant: there is a root, and the index points at one.
    pub open spec fn wf(&self) -> bool {
        self@.roots.len() > 0 && self@.current < self@.roots.len()
    }

    /// A run over `roots`, in that order; over the current directory if
    /// `roots` is empty.
    pub fn new(roots: Vec<Vec<u8>>) -> (r: Renamer)
        ensures
            r.wf(),
            r@ == initial(roots@.map_values(|p: Vec<u8>| p@)),
    {
        let ghost given = roots@.map_values(|p: Vec<u8>| p@);
        let chosen = if roots.len() == 0 {
            let mut dot: Vec<u8> = Vec::new();
            dot.push(CURRENT_DIR);
            let mut d: Vec<Vec<u8>> = Vec::new();
            d.push(dot);
            assert(d@.map_values(|p: Vec<u8>| p@) =~= seq![seq![CURRENT_DIR]]);
            d
        } else {
            roots
        };
        let r = Renamer { roots: chosen, current: 0, phase: Phase::Idle };
        assert(r@.roots =~= roots_or_default(given));
        r
    }

    /// Whether the run expects `e` now.
    pub fn accepts(&self, e: &Event) -> (r: bool)
        ensures
            r == expects(self@, e@),
    {
        match &self.phase {
            Phase::Idle => matches!(e, Event::Started),
            Phase::Resolving => matches!(e, Event::Resolved(_) | Event::NotResolved),
            Phase::Walking => matches!(e, Event::Entry(_, _) | Event::Unlisted | Event::WalkEnded),
            Phase::Reading(_) => matches!(e, Event::Contents(_) | Event::Unreadable),
            Phase::Renaming(_, _) => matches!(e, Event::Renamed | Event::RenameFailed),
            Phase::Done => false,
            Phase::Failed => false,
        }
    }

    /// Whether the run is over, completed or stopped by an error.
    pub fn is_over(&self) -> (r: bool)
        ensures
            r == (self@.phase is Done || self@.phase is Failed),
    {
        matches!(self.phase, Phase::Done | Phase::Failed)
    }

    /// Moves the run on by the event `e` and returns what to do next.
    pub fn step(&mut self, e: Event) -> (a: Action)
        requires
            old(self).wf(),
            expects(old(self)@, e@),
        ensures
            final(self).wf(),
            (final(self)@, a@) == next(old(self)@, e@),
            a matches Action::Rename(from, to) ==> dir_of(to@) == dir_of(from@),
    {
        // The phase is taken out; each arm below puts in the next one. The
        // arms marked unreachable are ruled out by `expects`.
        let mut phase = Phase::Failed;
        core::mem::swap(&mut self.phase, &mut phase);
        match e {
            Event::Started => {
                self.phase = Phase::Resolving;
                Action::Resolve(copy_bytes(&self.roots[self.current]))
            },
            Event::Resolved(c) => {
                self.phase = Phase::Walking;
                Action::Walk(c)
            },
            Event::NotResolved => {
                Action::Abort(RunError::PathResolution(copy_bytes(&self.roots[self.current])))
            },
            Event::Entry(p, is_dir) => {
                if is_dir {
                    self.phase = Phase::Walking;
                    Action::NextEntry
                } else {
                    self.phase = Phase::Reading(copy_bytes(&p));
                    Action::Read(p)
                }
            },
            Event::Unlisted => {
                self.phase = Phase::Walking;
                Action::NextEntry
            },
            Event::WalkEnded => {
                if self.current < self.roots.len() - 1 {
                    self.current = self.current + 1;
                    self.phase = Phase::Resolving;
                    Action::Resolve(copy_bytes(&self.roots[self.current]))
                } else {
                    self.phase = Phase::Done;
                    Action::Finish
                }
            },
            Event::Contents(c) => {
                match phase {
                    Phase::Reading(p) => {
                        let t = target_path(p.as_slice(), c.as_slice());
                        self.phase = Phase::Renaming(copy_bytes(&p), copy_bytes(&t));
                        Action::Rename(p, t)
                    },
                    _ => Action::Finish,  // unreachable
                }
            },
            Event::Unreadable => {
                match phase {
                    Phase::Reading(p) => Action::Abort(RunError::Read(p)),
                    _ => Action::Finish,  // unreachable
                }
            },
            Event::Renamed => {
                self.phase = Phase::Walking;
                Action::NextEntry
            },
            Event::RenameFailed => {
                match phase {
                    Phase::Renaming(from, to) => Action::Abort(RunError::Rename(from, to)),
                    _ => Action::Finish,  // unreachable
                }
            },
        }
    }
}

fn copy_bytes(v: &Vec<u8>) -> (r: Vec<u8>)
    ensures
        r@ == v@,
{
    slice_to_vec(v.as_slice())
}

} // verus!
