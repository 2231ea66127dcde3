//! The walk over the input tree, as a machine that asks for one thing at a
//! time: a directory to be mirrored, a directory to be listed, a run of the
//! decompiler. Whoever drives it does what is asked and hands back what came
//! of it.

use crate::dispatch::{invocation_for, Invocation, InvocationView, Outcome};
use crate::export_type::{Category, ExportType};
use crate::names::is_container;
use crate::path::RelPath;
use vstd::prelude::*;
use vstd::string::*;

verus! {

/// The name of the input root, a directory of the working directory.
pub fn input_root_name() -> (name: &'static str)
    ensures
        name@ == "original"@,
{
    "original"
}

/// The name of the output root, a directory of the working directory.
pub fn output_root_name() -> (name: &'static str)
    ensures
        name@ == "assets"@,
{
    "assets"
}

/// What a directory entry is. A symbolic link is `Other`, whatever it points to.
#[derive(Debug, Clone, Copy, PartialEq, Eq, Structural)]
pub enum EntryKind {
    Directory,
    File,
    Other,
}

/// One entry of a directory listing.
#[derive(Debug, Clone, PartialEq, Eq)]
pub struct Entry {
    pub name: String,
    pub kind: EntryKind,
}

/// The mathematical value of an [`Entry`].
pub struct EntryView {
    pub name: Seq<char>,
    pub kind: EntryKind,
}

impl View for Entry {
    type V = EntryView;

    open spec fn view(&self) -> EntryView {
        EntryView { name: self.name@, kind: self.kind }
    }
}

/// The values of the entries of a listing, in its order.
pub open spec fn listing_view(entries: Seq<Entry>) -> Seq<EntryView> {
    Seq::new(entries.len(), |i: int| entries[i]@)
}

/// What the walk asks of its driver.
#[derive(Debug, Clone, PartialEq, Eq)]
pub enum Request {
    /// Make sure that this directory exists below the output root, with its
    /// ancestors; one that exists is left as it is.
    Mirror(RelPath),
    /// List the entries of this directory below the input root.
    List(RelPath),
    /// Run the decompiler, and wait for it to end.
    Run(Invocation),
    /// The walk is complete.
    Finished,
    /// The walk was given up.
    Aborted,
}

/// The mathematical value of a [`Request`].
pub enum RequestView {
    Mirror(Seq<Seq<char>>),
    List(Seq<Seq<char>>),
    Run(InvocationView),
    Finished,
    Aborted,
}

impl View for Request {
    type V = RequestView;

    open spec fn view(&self) -> RequestView {
        match self {
            Request::Mirror(path) => RequestView::Mirror(path@),
            Request::List(path) => RequestView::List(path@),
            Request::Run(run) => RequestView::Run(run@),
            Request::Finished => RequestView::Finished,
            Request::Aborted => RequestView::Aborted,
        }
    }
}

/// What the driver hands back.
#[derive(Debug, Clone, PartialEq, Eq)]
pub enum Event {
    /// The directory asked for exists now.
    Mirrored,
    /// The entries of the directory asked for.
    Listed(Vec<Entry>),
    /// The decompiler's run ended.
    Ran(Outcome),
    /// The directory could not be made or listed.
    Failed,
}

/// The mathematical value of an [`Event`].
pub enum EventView {
    Mirrored,
    Listed(Seq<EntryView>),
    Ran(Outcome),
    Failed,
}

impl View for Event {
    type V = EventView;

    open spec fn view(&self) -> EventView {
        match self {
            Event::Mirrored => EventView::Mirrored,
            Event::Listed(entries) => EventView::Listed(listing_view(entries@)),
            Event::Ran(outcome) => EventView::Ran(*outcome),
            Event::Failed => EventView::Failed,
        }
    }
}

/// A directory that the walk is in: its path and the entries not yet looked at.
pub struct Pending {
    pub dir: Seq<Seq<char>>,
    pub rest: Seq<EntryView>,
}

/// What the walk is waiting for.
pub enum Phase {
    /// For this directory to exist below the output root.
    Mirroring(Seq<Seq<char>>),
    /// For the listing of this directory.
    Listing(Seq<Seq<char>>),
    /// For the decompiler to end.
    Running,
    /// For nothing: the walk is complete.
    Finished,
    /// For nothing: the walk was given up.
    Aborted,
}

/// The state of a walk: the directories it is in, the innermost last, and
/// what it is waiting for.
pub struct WalkState {
    pub category: Category,
    pub pending: Seq<Pending>,
    pub phase: Phase,
}

/// The entries not yet looked at in the innermost directory.
pub open spec fn innermost_rest(pending: Seq<Pending>) -> nat {
    if pending.len() == 0 {
        0
    } else {
        pending.last().rest.len()
    }
}

/// The stack of directories after the first entry of the innermost one was taken.
pub open spec fn after_first(pending: Seq<Pending>) -> Seq<Pending>
    recommends
        pending.len() > 0,
        pending.last().rest.len() > 0,
{
    pending.drop_last().push(
        Pending { dir: pending.last().dir, rest: pending.last().rest.drop_first() },
    )
}

/// Goes on with the walk: leaves the directories that have no entry left and
/// passes over the entries that need nothing, up to the first directory or
/// container file, or to the end of the walk.
pub open spec fn proceed(category: Category, pending: Seq<Pending>) -> (WalkState, RequestView)
    decreases pending.len(), innermost_rest(pending),
{
    if pending.len() == 0 {
        (WalkState { category, pending, phase: Phase::Finished }, RequestView::Finished)
    } else if pending.last().rest.len() == 0 {
        proceed(category, pending.drop_last())
    } else {
        let dir = pending.last().dir;
        let entry = pending.last().rest[0];
        let left = after_first(pending);
        if entry.kind == EntryKind::Directory {
            let path = dir.push(entry.name);
            (
                WalkState { category, pending: left, phase: Phase::Mirroring(path) },
                RequestView::Mirror(path),
            )
        } else if entry.kind == EntryKind::File && is_container(entry.name) {
            (
                WalkState { category, pending: left, phase: Phase::Running },
                RequestView::Run(invocation_for(category, dir, entry.name)),
            )
        } else {
            proceed(category, left)
        }
    }
}

/// The state in which a walk begins, waiting for the output root to exist.
pub open spec fn initial_state(category: Category) -> WalkState {
    WalkState { category, pending: Seq::empty(), phase: Phase::Mirroring(Seq::empty()) }
}

/// The first request of a walk.
pub open spec fn initial_request() -> RequestView {
    RequestView::Mirror(Seq::empty())
}

/// The state after `event`, and what is asked next.
///
/// A mirrored directory is listed next, and its listing is walked before the
/// rest of its parent. A run that ended is followed by the next entry,
/// however it ended. A directory that could not be made or listed ends the
/// walk, and so does an event that answers nothing that was asked. A walk
/// that has ended stays as it is.
pub open spec fn next(state: WalkState, event: EventView) -> (WalkState, RequestView) {
    match (state.phase, event) {
        (Phase::Mirroring(path), EventView::Mirrored) => (
            WalkState { phase: Phase::Listing(path), ..state },
            RequestView::List(path),
        ),
        (Phase::Listing(path), EventView::Listed(entries)) => proceed(
            state.category,
            state.pending.push(Pending { dir: path, rest: entries }),
        ),
        (Phase::Running, EventView::Ran(_)) => proceed(state.category, state.pending),
        (Phase::Finished, _) => (state, RequestView::Finished),
        _ => (WalkState { phase: Phase::Aborted, ..state }, RequestView::Aborted),
    }
}

/// A directory that the walk is in.
struct Frame {
    dir: RelPath,
    entries: Vec<Entry>,
    /// How many of the entries were looked at.
    next: usize,
}

impl View for Frame {
    type V = Pending;

    closed spec fn view(&self) -> Pending {
        Pending {
            dir: self.dir@,
            rest: Seq::new(
                if self.next <= self.entries@.len() {
                    (self.entries@.len() - self.next) as nat
                } else {
                    0
                },
                |i: int| self.entries@[self.next + i]@,
            ),
        }
    }
}

/// What the walk is waiting for.
enum Waiting {
    Mirroring(RelPath),
    Listing(RelPath),
    Running,
    Finished,
    Aborted,
}

impl View for Waiting {
    type V = Phase;

    closed spec fn view(&self) -> Phase {
        match self {
            Waiting::Mirroring(path) => Phase::Mirroring(path@),
            Waiting::Listing(path) => Phase::Listing(path@),
            Waiting::Running => Phase::Running,
            Waiting::Finished => Phase::Finished,
            Waiting::Aborted => Phase::Aborted,
        }
    }
}

/// A walk over the input tree.
pub struct Walker {
    category: ExportType,
    frames: Vec<Frame>,
    waiting: Waiting,
}

impl View for Walker {
    type V = WalkState;

    closed spec fn view(&self) -> WalkState {
        WalkState {
            category: self.category@,
            pending: Seq::new(self.frames@.len(), |i: int| self.frames@[i]@),
            phase: self.waiting@,
        }
    }
}

impl Walker {
    /// Begins a walk that exports `category`, and gives its first request.
    pub fn start(category: ExportType) -> (begun: (Walker, Request))
        ensures
            begun.0@ == initial_state(category@),
            begun.1@ == initial_request(),
    {
        let walker = Walker {
            category,
            frames: Vec::new(),
            waiting: Waiting::Mirroring(RelPath::root()),
        };
        assert(walker@.pending =~= Seq::empty());
        (walker, Request::Mirror(RelPath::root()))
    }

    /// Whether the walk has ended, complete or given up.
    pub fn is_over(&self) -> (over: bool)
        ensures
            over == (self@.phase is Finished || self@.phase is Aborted),
    {
        match self.waiting {
            Waiting::Finished => true,
            Waiting::Aborted => true,
            _ => false,
        }
    }

    /// Goes on with the walk from the directories it is in.
    fn proceed(&mut self) -> (request: Request)
        ensures
            (final(self)@, request@) == proceed(old(self)@.category, old(self)@.pending),
    {
        loop
            invariant
                self.category == old(self).category,
                proceed(self@.category, self@.pending) == proceed(
                    old(self)@.category,
                    old(self)@.pending,
                ),
            decreases self@.pending.len(), innermost_rest(self@.pending),
        {
            let ghost before = self@.pending;
            match self.frames.pop() {
                None => {
                    self.waiting = Waiting::Finished;
                    assert(self@.pending =~= before);
                    return Request::Finished;
                },
                Some(frame) => {
                    assert(frame@ == before.last());
                    assert(self@.pending =~= before.drop_last());
                    if frame.next < frame.entries.len() {
                        let entry = &frame.entries[frame.next];
                        assert(entry@ == before.last().rest[0]);
                        let kind = entry.kind;
                        let asked = match kind {
                            EntryKind::Directory => Some(
                                Request::Mirror(frame.dir.child(entry.name.as_str())),
                            ),
                            EntryKind::File => match Invocation::plan(
                                &self.category,
                                &frame.dir,
                                entry.name.as_str(),
                            ) {
                                Some(run) => Some(Request::Run(run)),
                                None => None,
                            },
                            EntryKind::Other => None,
                        };
                        let taken = Frame {
                            dir: frame.dir,
                            entries: frame.entries,
                            next: frame.next + 1,
                        };
                        assert(taken@.rest =~= before.last().rest.drop_first());
                        self.frames.push(taken);
                        assert(self@.pending =~= after_first(before));
                        match asked {
                            Some(Request::Mirror(path)) => {
                                self.waiting = Waiting::Mirroring(path.clone());
                                assert(self@.pending =~= after_first(before));
                                return Request::Mirror(path);
                            },
                            Some(request) => {
                                self.waiting = Waiting::Running;
                                assert(self@.pending =~= after_first(before));
                                return request;
                            },
                            None => {},
                        }
                    }
                },
            }
        }
    }

    /// Takes what came of the last request, and gives the next one.
    pub fn step(&mut self, event: Event) -> (request: Request)
        ensures
            (final(self)@, request@) == next(old(self)@, event@),
    {
        let ghost before = self@;
        match (&self.waiting, event) {
            (Waiting::Mirroring(path), Event::Mirrored) => {
                let path = path.clone();
                self.waiting = Waiting::Listing(path.clone());
                assert(self@.pending =~= before.pending);
                Request::List(path)
            },
            (Waiting::Listing(path), Event::Listed(entries)) => {
                let frame = Frame { dir: path.clone(), entries, next: 0 };
                assert(frame@.rest =~= listing_view(entries@));
                self.frames.push(frame);
                assert(self@.pending =~= before.pending.push(frame@));
                self.proceed()
            },
            (Waiting::Running, Event::Ran(_)) => {
                assert(self@.pending =~= before.pending);
                self.proceed()
            },
            (Waiting::Finished, _) => Request::Finished,
            _ => {
                self.waiting = Waiting::Aborted;
                assert(self@.pending =~= before.pending);
                Request::Aborted
            },
        }
    }
}

} // verus!
