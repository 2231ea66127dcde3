//! Input trees, and what a walk asks for on each of them.

use crate::dispatch::{invocation_for, Outcome};
use crate::export_type::Category;
use crate::names::is_container;
use crate::walk::{
    after_first, initial_request, initial_state, next, proceed, EntryKind, EntryView, EventView,
    Pending, Phase, RequestView, WalkState,
};
use vstd::prelude::*;

verus! {

/// An entry of an input tree, with what is below it if it is a directory.
pub struct Node {
    pub name: Seq<char>,
    pub kind: EntryKind,
    pub children: Seq<Node>,
}

/// The listing of a directory that holds `nodes`.
pub open spec fn listing_of(nodes: Seq<Node>) -> Seq<EntryView> {
    Seq::new(nodes.len(), |i: int| EntryView { name: nodes[i].name, kind: nodes[i].kind })
}

/// What a walk asks for on account of the entry `node` of the directory `dir`.
///
/// A directory is mirrored, then listed, then walked. A container file is
/// exported. Nothing is asked for any other entry.
pub open spec fn requests_for(category: Category, dir: Seq<Seq<char>>, node: Node) -> Seq<
    RequestView,
>
    decreases node, 0nat,
{
    if node.kind == EntryKind::Directory {
        let path = dir.push(node.name);
        seq![RequestView::Mirror(path), RequestView::List(path)] + requests_within(
            category,
            path,
            node.children,
        )
    } else if node.kind == EntryKind::File && is_container(node.name) {
        seq![RequestView::Run(invocation_for(category, dir, node.name))]
    } else {
        Seq::empty()
    }
}

/// What a walk asks for inside the directory `dir` that holds `nodes`: what
/// it asks for each of them, in the order of the listing.
pub open spec fn requests_within(category: Category, dir: Seq<Seq<char>>, nodes: Seq<Node>) -> Seq<
    RequestView,
>
    decreases nodes, nodes.len(),
{
    if nodes.len() == 0 {
        Seq::empty()
    } else {
        requests_for(category, dir, nodes[0]) + requests_within(category, dir, nodes.drop_first())
    }
}

/// Everything that a walk of the tree below the roots asks for, from the
/// first request to the last.
pub open spec fn walk_requests(category: Category, nodes: Seq<Node>) -> Seq<RequestView> {
    seq![RequestView::Mirror(Seq::empty()), RequestView::List(Seq::empty())] + requests_within(
        category,
        Seq::empty(),
        nodes,
    ) + seq![RequestView::Finished]
}

/// What a driver hands back on account of the entry `node`, where every
/// directory can be made and listed and the run on a file ends as
/// `outcomes` says.
pub open spec fn events_for(
    dir: Seq<Seq<char>>,
    node: Node,
    outcomes: spec_fn(Seq<Seq<char>>) -> Outcome,
) -> Seq<EventView>
    decreases node, 0nat,
{
    if node.kind == EntryKind::Directory {
        seq![EventView::Mirrored, EventView::Listed(listing_of(node.children))] + events_within(
            dir.push(node.name),
            node.children,
            outcomes,
        )
    } else if node.kind == EntryKind::File && is_container(node.name) {
        seq![EventView::Ran(outcomes(dir.push(node.name)))]
    } else {
        Seq::empty()
    }
}

/// What a driver hands back inside the directory `dir` that holds `nodes`.
pub open spec fn events_within(
    dir: Seq<Seq<char>>,
    nodes: Seq<Node>,
    outcomes: spec_fn(Seq<Seq<char>>) -> Outcome,
) -> Seq<EventView>
    decreases nodes, nodes.len(),
{
    if nodes.len() == 0 {
        Seq::empty()
    } else {
        events_for(dir, nodes[0], outcomes) + events_within(dir, nodes.drop_first(), outcomes)
    }
}

/// Everything that a driver hands back during a walk of the tree below the roots.
pub open spec fn walk_events(nodes: Seq<Node>, outcomes: spec_fn(Seq<Seq<char>>) -> Outcome) -> Seq<
    EventView,
> {
    seq![EventView::Mirrored, EventView::Listed(listing_of(nodes))] + events_within(
        Seq::empty(),
        nodes,
        outcomes,
    )
}

/// The state after the walk took `events` one by one, and what it asked
/// after each of them.
pub open spec fn run(state: WalkState, events: Seq<EventView>) -> (WalkState, Seq<RequestView>)
    decreases events.len(),
{
    if events.len() == 0 {
        (state, Seq::empty())
    } else {
        let first = next(state, events[0]);
        let rest = run(first.0, events.drop_first());
        (rest.0, seq![first.1] + rest.1)
    }
}

/// Taking events in two parts is taking them all: the second part goes on
/// where the first ended.
pub proof fn run_in_two_parts(state: WalkState, first: Seq<EventView>, second: Seq<EventView>)
    ensures
        run(state, first + second).0 == run(run(state, first).0, second).0,
        run(state, first + second).1 == run(state, first).1 + run(run(state, first).0, second).1,
    decreases first.len(),
{
    let all = first + second;
    if first.len() == 0 {
        assert(all =~= second);
        assert(run(state, first).1 + run(state, second).1 =~= run(state, second).1);
    } else {
        let after = next(state, first[0]);
        assert(all[0] == first[0]);
        assert(all.drop_first() =~= first.drop_first() + second);
        run_in_two_parts(after.0, first.drop_first(), second);
        let head = run(after.0, first.drop_first());
        let tail = run(head.0, second);
        assert(seq![after.1] + (head.1 + tail.1) =~= (seq![after.1] + head.1) + tail.1);
    }
}

/// Entering a directory: once it is mirrored it is listed, and its listing
/// is walked on top of the directories that the walk is in.
pub proof fn entering_directory(state: WalkState, path: Seq<Seq<char>>, listed: Seq<EntryView>)
    requires
        state.phase == Phase::Mirroring(path),
    ensures
        ({
            let entered = run(state, seq![EventView::Mirrored, EventView::Listed(listed)]);
            let begun = proceed(
                state.category,
                state.pending.push(Pending { dir: path, rest: listed }),
            );
            &&& entered.0 == begun.0
            &&& entered.1 == seq![RequestView::List(path), begun.1]
        }),
{
    reveal_with_fuel(run, 3);
    let opening = seq![EventView::Mirrored, EventView::Listed(listed)];
    let begun = proceed(state.category, state.pending.push(Pending { dir: path, rest: listed }));
    assert(opening.drop_first() =~= seq![EventView::Listed(listed)]);
    assert(opening.drop_first().drop_first() =~= Seq::<EventView>::empty());
    assert(run(state, opening).1 =~= seq![RequestView::List(path), begun.1]);
}

/// The walk of one directory. With the directory on top of the directories
/// `parents`, the walk asks for what `requests_within` says, and when the
/// driver has handed back what `events_within` says, it is where it would
/// be, had it gone on with `parents` alone.
pub proof fn walk_of_directory(
    category: Category,
    parents: Seq<Pending>,
    dir: Seq<Seq<char>>,
    nodes: Seq<Node>,
    outcomes: spec_fn(Seq<Seq<char>>) -> Outcome,
)
    ensures
        ({
            let begun = proceed(category, parents.push(Pending { dir, rest: listing_of(nodes) }));
            let ended = run(begun.0, events_within(dir, nodes, outcomes));
            let resumed = proceed(category, parents);
            &&& ended.0 == resumed.0
            &&& seq![begun.1] + ended.1 == requests_within(category, dir, nodes) + seq![resumed.1]
        }),
    decreases nodes, nodes.len(),
{
    let stack = parents.push(Pending { dir, rest: listing_of(nodes) });
    let begun = proceed(category, stack);
    let events = events_within(dir, nodes, outcomes);
    let ended = run(begun.0, events);
    let resumed = proceed(category, parents);
    let asked = requests_within(category, dir, nodes);
    assert(stack.drop_last() =~= parents);
    if nodes.len() == 0 {
        assert(seq![begun.1] + ended.1 =~= asked + seq![resumed.1]);
    } else {
        let node = nodes[0];
        let tail = nodes.drop_first();
        let left = parents.push(Pending { dir, rest: listing_of(tail) });
        assert(listing_of(nodes).drop_first() =~= listing_of(tail));
        assert(after_first(stack) =~= left);
        assert(stack.last().rest[0] == EntryView { name: node.name, kind: node.kind });

        walk_of_directory(category, parents, dir, tail, outcomes);
        let begun_tail = proceed(category, left);
        let events_tail = events_within(dir, tail, outcomes);
        let ended_tail = run(begun_tail.0, events_tail);
        let asked_tail = requests_within(category, dir, tail);

        if node.kind == EntryKind::Directory {
            let path = dir.push(node.name);
            let listed = listing_of(node.children);
            let opening = seq![EventView::Mirrored, EventView::Listed(listed)];
            let events_below = events_within(path, node.children, outcomes);
            let asked_below = requests_within(category, path, node.children);
            assert(decreases_to!(nodes => nodes[0]));
            walk_of_directory(category, left, path, node.children, outcomes);
            let begun_below = proceed(category, left.push(Pending { dir: path, rest: listed }));
            let ended_below = run(begun_below.0, events_below);

            entering_directory(begun.0, path, listed);
            let opened = run(begun.0, opening);

            assert(events_for(dir, node, outcomes) == opening + events_below);
            assert(requests_for(category, dir, node) == seq![
                RequestView::Mirror(path),
                RequestView::List(path),
            ] + asked_below);
            assert(events =~= (opening + events_below) + events_tail);
            run_in_two_parts(begun.0, opening + events_below, events_tail);
            run_in_two_parts(begun.0, opening, events_below);
            assert(ended.0 == ended_tail.0);
            assert(ended.1 =~= (opened.1 + ended_below.1) + ended_tail.1);
            assert(asked =~= (seq![RequestView::Mirror(path), RequestView::List(path)]
                + asked_below) + asked_tail);
            assert(seq![begun.1] + ended.1 =~= seq![
                RequestView::Mirror(path),
                RequestView::List(path),
            ] + (seq![begun_below.1] + ended_below.1) + ended_tail.1);
            assert(seq![begun.1] + ended.1 =~= seq![
                RequestView::Mirror(path),
                RequestView::List(path),
            ] + asked_below + (seq![begun_tail.1] + ended_tail.1));
            assert(seq![begun.1] + ended.1 =~= asked + seq![resumed.1]);
        } else if node.kind == EntryKind::File && is_container(node.name) {
            let ran = EventView::Ran(outcomes(dir.push(node.name)));
            assert(events_for(dir, node, outcomes) == seq![ran]);
            assert(requests_for(category, dir, node) == seq![begun.1]);
            assert(events =~= seq![ran] + events_tail);
            assert(events.drop_first() =~= events_tail);
            assert(next(begun.0, ran) == begun_tail);
            assert(ended.1 =~= seq![begun_tail.1] + ended_tail.1);
            assert(asked =~= seq![begun.1] + asked_tail);
            assert(seq![begun.1] + ended.1 =~= seq![begun.1] + (seq![begun_tail.1]
                + ended_tail.1));
            assert(seq![begun.1] + ended.1 =~= asked + seq![resumed.1]);
        } else {
            assert(begun == begun_tail);
            assert(events_for(dir, node, outcomes) == Seq::<EventView>::empty());
            assert(requests_for(category, dir, node) == Seq::<RequestView>::empty());
            assert(events =~= events_tail);
            assert(asked =~= asked_tail);
        }
    }
}

/// A walk of a whole tree. Begun on a tree whose directories can all be made
/// and listed, the walk asks for exactly what `walk_requests` says, in that
/// order, and is then complete, however the runs of the decompiler end.
pub proof fn walk_follows_tree(
    category: Category,
    nodes: Seq<Node>,
    outcomes: spec_fn(Seq<Seq<char>>) -> Outcome,
)
    ensures
        run(initial_state(category), walk_events(nodes, outcomes)).0 == (WalkState {
            category,
            pending: Seq::empty(),
            phase: Phase::Finished,
        }),
        seq![initial_request()] + run(initial_state(category), walk_events(nodes, outcomes)).1
            == walk_requests(category, nodes),
{
    let root = Seq::<Seq<char>>::empty();
    let none = Seq::<Pending>::empty();
    let begin = initial_state(category);
    let listed = listing_of(nodes);
    let opening = seq![EventView::Mirrored, EventView::Listed(listed)];
    let events_below = events_within(root, nodes, outcomes);
    walk_of_directory(category, none, root, nodes, outcomes);
    let begun_below = proceed(category, none.push(Pending { dir: root, rest: listed }));
    let ended_below = run(begun_below.0, events_below);

    entering_directory(begin, root, listed);
    let opened = run(begin, opening);
    run_in_two_parts(begin, opening, events_below);
    let ended = run(begin, walk_events(nodes, outcomes));
    assert(ended.1 =~= opened.1 + ended_below.1);
    assert(seq![initial_request()] + ended.1 =~= seq![
        RequestView::Mirror(root),
        RequestView::List(root),
    ] + (seq![begun_below.1] + ended_below.1));
    assert(seq![initial_request()] + ended.1 =~= walk_requests(category, nodes));
}

/// The directory that has to exist below the output root when `request` is
/// carried out: the parent of a directory to be made, the directory that
/// mirrors the one to be listed, the directory that an export goes to.
pub open spec fn needed_directory(request: RequestView) -> Option<Seq<Seq<char>>> {
    match request {
        RequestView::Mirror(path) => if path.len() > 0 {
            Some(path.drop_last())
        } else {
            None
        },
        RequestView::List(path) => Some(path),
        RequestView::Run(run) => Some(run.output.drop_last()),
        _ => None,
    }
}

/// Whether the directory `path` was asked to be mirrored before the request at `at`.
pub open spec fn mirrored_before(
    requests: Seq<RequestView>,
    at: int,
    path: Seq<Seq<char>>,
) -> bool {
    exists|i: int| 0 <= i < at && requests[i] == RequestView::Mirror(path)
}

/// Inside a directory, every request needs that directory itself or one
/// that was asked to be mirrored earlier in the walk of it.
pub proof fn mirror_comes_first_within(
    category: Category,
    dir: Seq<Seq<char>>,
    nodes: Seq<Node>,
    at: int,
)
    requires
        0 <= at < requests_within(category, dir, nodes).len(),
    ensures
        ({
            let requests = requests_within(category, dir, nodes);
            &&& needed_directory(requests[at]) is Some
            &&& needed_directory(requests[at])->Some_0 == dir || mirrored_before(
                requests,
                at,
                needed_directory(requests[at])->Some_0,
            )
        }),
    decreases nodes, nodes.len(),
{
    let requests = requests_within(category, dir, nodes);
    let node = nodes[0];
    let first = requests_for(category, dir, node);
    let tail = requests_within(category, dir, nodes.drop_first());
    assert(requests == first + tail);
    if at >= first.len() {
        let inner = at - first.len();
        mirror_comes_first_within(category, dir, nodes.drop_first(), inner);
        let needed = needed_directory(tail[inner])->Some_0;
        if needed != dir {
            let i = choose|i: int| 0 <= i < inner && tail[i] == RequestView::Mirror(needed);
            assert(requests[first.len() + i] == RequestView::Mirror(needed));
        }
    } else if node.kind == EntryKind::Directory {
        let path = dir.push(node.name);
        let below = requests_within(category, path, node.children);
        assert(first == seq![RequestView::Mirror(path), RequestView::List(path)] + below);
        assert(path.drop_last() =~= dir);
        assert(requests[0] == RequestView::Mirror(path));
        if at >= 2 {
            let inner = at - 2;
            assert(decreases_to!(nodes => nodes[0]));
            mirror_comes_first_within(category, path, node.children, inner);
            let needed = needed_directory(below[inner])->Some_0;
            if needed != path {
                let i = choose|i: int| 0 <= i < inner && below[i] == RequestView::Mirror(needed);
                assert(requests[2 + i] == RequestView::Mirror(needed));
            }
        }
    } else {
        assert(first == seq![RequestView::Run(invocation_for(category, dir, node.name))]);
        assert(invocation_for(category, dir, node.name).output.drop_last() =~= dir);
    }
}

/// In a walk, whatever is asked has its directory mirrored first: a
/// directory is mirrored before it is listed, before anything is made in it
/// and before any export goes to it.
pub proof fn mirror_comes_first(category: Category, nodes: Seq<Node>, at: int)
    requires
        0 <= at < walk_requests(category, nodes).len(),
        needed_directory(walk_requests(category, nodes)[at]) is Some,
    ensures
        mirrored_before(
            walk_requests(category, nodes),
            at,
            needed_directory(walk_requests(category, nodes)[at])->Some_0,
        ),
{
    let root = Seq::<Seq<char>>::empty();
    let requests = walk_requests(category, nodes);
    let below = requests_within(category, root, nodes);
    assert(requests[0] == RequestView::Mirror(root));
    if 2 <= at < 2 + below.len() {
        let inner = at - 2;
        mirror_comes_first_within(category, root, nodes, inner);
        let needed = needed_directory(below[inner])->Some_0;
        if needed != root {
            let i = choose|i: int| 0 <= i < inner && below[i] == RequestView::Mirror(needed);
            assert(requests[2 + i] == RequestView::Mirror(needed));
        }
    }
}

/// However a run of the decompiler ends, the walk goes on in the same way.
pub proof fn outcome_does_not_matter(state: WalkState, first: Outcome, second: Outcome)
    ensures
        next(state, EventView::Ran(first)) == next(state, EventView::Ran(second)),
{
}

/// What a walk asks for does not depend on how the runs of the decompiler end.
pub proof fn requests_do_not_depend_on_outcomes(
    category: Category,
    nodes: Seq<Node>,
    first: spec_fn(Seq<Seq<char>>) -> Outcome,
    second: spec_fn(Seq<Seq<char>>) -> Outcome,
)
    ensures
        run(initial_state(category), walk_events(nodes, first)) == run(
            initial_state(category),
            walk_events(nodes, second),
        ),
{
    walk_follows_tree(category, nodes, first);
    walk_follows_tree(category, nodes, second);
    let a = run(initial_state(category), walk_events(nodes, first));
    let b = run(initial_state(category), walk_events(nodes, second));
    assert((seq![initial_request()] + a.1).drop_first() =~= a.1);
    assert((seq![initial_request()] + b.1).drop_first() =~= b.1);
}

/// Whether `path` leads from the directory that holds `nodes` to an entry
/// of kind `kind`, through directories only.
pub open spec fn leads_to(nodes: Seq<Node>, path: Seq<Seq<char>>, kind: EntryKind) -> bool
    decreases path.len(),
{
    &&& path.len() > 0
    &&& exists|i: int|
        0 <= i < nodes.len() && (#[trigger] nodes[i]).name == path[0] && if path.len() == 1 {
            nodes[i].kind == kind
        } else {
            nodes[i].kind == EntryKind::Directory && leads_to(
                nodes[i].children,
                path.drop_first(),
                kind,
            )
        }
}

/// What is asked on account of one entry of a directory is asked in the
/// walk of that directory.
pub proof fn requests_of_entry_are_asked(
    category: Category,
    dir: Seq<Seq<char>>,
    nodes: Seq<Node>,
    i: int,
    request: RequestView,
)
    requires
        0 <= i < nodes.len(),
        requests_for(category, dir, nodes[i]).contains(request),
    ensures
        requests_within(category, dir, nodes).contains(request),
    decreases i,
{
    let first = requests_for(category, dir, nodes[0]);
    let tail = requests_within(category, dir, nodes.drop_first());
    let all = requests_within(category, dir, nodes);
    assert(all == first + tail);
    if i == 0 {
        let at = choose|at: int| 0 <= at < first.len() && first[at] == request;
        assert(all[at] == request);
    } else {
        assert(nodes.drop_first()[i - 1] == nodes[i]);
        requests_of_entry_are_asked(category, dir, nodes.drop_first(), i - 1, request);
        let at = choose|at: int| 0 <= at < tail.len() && tail[at] == request;
        assert(all[first.len() + at] == request);
    }
}

/// Every directory of the tree is asked to be mirrored, under the path that
/// it has in the input tree, and to be listed.
pub proof fn every_directory_is_mirrored(
    category: Category,
    dir: Seq<Seq<char>>,
    nodes: Seq<Node>,
    path: Seq<Seq<char>>,
)
    requires
        leads_to(nodes, path, EntryKind::Directory),
    ensures
        requests_within(category, dir, nodes).contains(RequestView::Mirror(dir + path)),
        requests_within(category, dir, nodes).contains(RequestView::List(dir + path)),
    decreases path.len(),
{
    let i = choose|i: int|
        0 <= i < nodes.len() && (#[trigger] nodes[i]).name == path[0] && if path.len() == 1 {
            nodes[i].kind == EntryKind::Directory
        } else {
            nodes[i].kind == EntryKind::Directory && leads_to(
                nodes[i].children,
                path.drop_first(),
                EntryKind::Directory,
            )
        };
    let node = nodes[i];
    let inner = dir.push(node.name);
    let below = requests_within(category, inner, node.children);
    let first = requests_for(category, dir, node);
    let mirror = RequestView::Mirror(dir + path);
    let list = RequestView::List(dir + path);
    assert(first == seq![RequestView::Mirror(inner), RequestView::List(inner)] + below);
    if path.len() == 1 {
        assert(dir + path =~= inner);
        assert(first[0] == mirror);
        assert(first[1] == list);
    } else {
        every_directory_is_mirrored(category, inner, node.children, path.drop_first());
        assert(inner + path.drop_first() =~= dir + path);
        let m = choose|m: int| 0 <= m < below.len() && below[m] == mirror;
        assert(first[2 + m] == mirror);
        let l = choose|l: int| 0 <= l < below.len() && below[l] == list;
        assert(first[2 + l] == list);
    }
    requests_of_entry_are_asked(category, dir, nodes, i, mirror);
    requests_of_entry_are_asked(category, dir, nodes, i, list);
}

/// Every container file of the tree is exported: the decompiler is asked to
/// run on it, with the export going to the mirror of its directory.
pub proof fn every_container_is_exported(
    category: Category,
    dir: Seq<Seq<char>>,
    nodes: Seq<Node>,
    path: Seq<Seq<char>>,
)
    requires
        leads_to(nodes, path, EntryKind::File),
        is_container(path.last()),
    ensures
        requests_within(category, dir, nodes).contains(
            RequestView::Run(invocation_for(category, dir + path.drop_last(), path.last())),
        ),
    decreases path.len(),
{
    let i = choose|i: int|
        0 <= i < nodes.len() && (#[trigger] nodes[i]).name == path[0] && if path.len() == 1 {
            nodes[i].kind == EntryKind::File
        } else {
            nodes[i].kind == EntryKind::Directory && leads_to(
                nodes[i].children,
                path.drop_first(),
                EntryKind::File,
            )
        };
    let node = nodes[i];
    let first = requests_for(category, dir, node);
    let export = RequestView::Run(invocation_for(category, dir + path.drop_last(), path.last()));
    if path.len() == 1 {
        assert(dir + path.drop_last() =~= dir);
        assert(first[0] == export);
    } else {
        let inner = dir.push(node.name);
        let below = requests_within(category, inner, node.children);
        assert(first == seq![RequestView::Mirror(inner), RequestView::List(inner)] + below);
        every_container_is_exported(category, inner, node.children, path.drop_first());
        assert(inner + path.drop_first().drop_last() =~= dir + path.drop_last());
        assert(path.drop_first().last() == path.last());
        let m = choose|m: int| 0 <= m < below.len() && below[m] == export;
        assert(first[2 + m] == export);
    }
    requests_of_entry_are_asked(category, dir, nodes, i, export);
}

/// The entry that a request is about: its path and its kind.
pub open spec fn subject(request: RequestView) -> Option<(Seq<Seq<char>>, EntryKind)> {
    match request {
        RequestView::Mirror(path) => Some((path, EntryKind::Directory)),
        RequestView::List(path) => Some((path, EntryKind::Directory)),
        RequestView::Run(run) => Some((run.input, EntryKind::File)),
        _ => None,
    }
}

/// A path that leads to an entry among all but the first entries of a
/// directory leads to it in the directory.
pub proof fn leads_to_from_tail(nodes: Seq<Node>, path: Seq<Seq<char>>, kind: EntryKind)
    requires
        nodes.len() > 0,
        leads_to(nodes.drop_first(), path, kind),
    ensures
        leads_to(nodes, path, kind),
{
    let tail = nodes.drop_first();
    let i = choose|i: int|
        0 <= i < tail.len() && (#[trigger] tail[i]).name == path[0] && if path.len() == 1 {
            tail[i].kind == kind
        } else {
            tail[i].kind == EntryKind::Directory && leads_to(
                tail[i].children,
                path.drop_first(),
                kind,
            )
        };
    assert(nodes[i + 1] == tail[i]);
}

/// Inside a directory, every request is about an entry of the tree below
/// it: a directory where it is mirrored or listed, a container file where
/// the decompiler is run, and then with the export going to the mirror of
/// the file's directory, under the export name.
pub proof fn requests_concern_the_tree(
    category: Category,
    dir: Seq<Seq<char>>,
    nodes: Seq<Node>,
    at: int,
)
    requires
        0 <= at < requests_within(category, dir, nodes).len(),
    ensures
        ({
            let request = requests_within(category, dir, nodes)[at];
            let path = subject(request)->Some_0.0;
            let kind = subject(request)->Some_0.1;
            &&& subject(request) is Some
            &&& dir.is_prefix_of(path)
            &&& leads_to(nodes, path.skip(dir.len() as int), kind)
            &&& request is Run ==> is_container(path.last()) && request->Run_0 == invocation_for(
                category,
                path.drop_last(),
                path.last(),
            )
        }),
    decreases nodes, nodes.len(),
{
    let requests = requests_within(category, dir, nodes);
    let node = nodes[0];
    let first = requests_for(category, dir, node);
    let tail = requests_within(category, dir, nodes.drop_first());
    let depth = dir.len() as int;
    assert(requests == first + tail);
    if at >= first.len() {
        let inner = at - first.len();
        requests_concern_the_tree(category, dir, nodes.drop_first(), inner);
        let found = subject(tail[inner])->Some_0;
        leads_to_from_tail(nodes, found.0.skip(depth), found.1);
    } else if node.kind == EntryKind::Directory {
        let path = dir.push(node.name);
        let below = requests_within(category, path, node.children);
        assert(first == seq![RequestView::Mirror(path), RequestView::List(path)] + below);
        if at < 2 {
            assert(path.skip(depth) =~= seq![node.name]);
            assert(dir =~= path.subrange(0, depth));
        } else {
            let inner = at - 2;
            assert(decreases_to!(nodes => nodes[0]));
            requests_concern_the_tree(category, path, node.children, inner);
            let found = subject(below[inner])->Some_0;
            let rest = found.0.skip(depth);
            assert(path =~= found.0.subrange(0, depth + 1));
            assert(dir =~= found.0.subrange(0, depth));
            assert(rest[0] == path[depth]);
            assert(rest.drop_first() =~= found.0.skip(depth + 1));
        }
    } else {
        let run = invocation_for(category, dir, node.name);
        assert(first == seq![RequestView::Run(run)]);
        assert(run.input.skip(depth) =~= seq![node.name]);
        assert(dir =~= run.input.subrange(0, depth));
        assert(run.input.drop_last() =~= dir);
    }
}

/// In a walk, the decompiler is run on container files of the tree only:
/// each run has for its input a file of the tree whose name has the
/// container extension, and for its output the export name in the same
/// directory.
pub proof fn only_containers_are_exported(category: Category, nodes: Seq<Node>, at: int)
    requires
        0 <= at < walk_requests(category, nodes).len(),
        walk_requests(category, nodes)[at] is Run,
    ensures
        ({
            let run = walk_requests(category, nodes)[at]->Run_0;
            &&& leads_to(nodes, run.input, EntryKind::File)
            &&& is_container(run.input.last())
            &&& run == invocation_for(category, run.input.drop_last(), run.input.last())
        }),
{
    let root = Seq::<Seq<char>>::empty();
    let below = requests_within(category, root, nodes);
    requests_concern_the_tree(category, root, nodes, at - 2);
    let run = below[at - 2]->Run_0;
    assert(run.input.skip(0) =~= run.input);
}

/// In a walk, only the output root and the directories of the tree are
/// mirrored, and only the input root and the directories of the tree are listed.
pub proof fn only_directories_are_mirrored(category: Category, nodes: Seq<Node>, at: int)
    requires
        0 <= at < walk_requests(category, nodes).len(),
        walk_requests(category, nodes)[at] is Mirror || walk_requests(category, nodes)[at] is List,
    ensures
        ({
            let path = subject(walk_requests(category, nodes)[at])->Some_0.0;
            path.len() == 0 || leads_to(nodes, path, EntryKind::Directory)
        }),
{
    let root = Seq::<Seq<char>>::empty();
    let below = requests_within(category, root, nodes);
    if at >= 2 {
        requests_concern_the_tree(category, root, nodes, at - 2);
        let path = subject(below[at - 2])->Some_0.0;
        assert(path.skip(0) =~= path);
    }
}

/// A file whose name does not have the container extension is left alone:
/// no run of the decompiler has it for its input.
pub proof fn other_files_are_left_alone(category: Category, nodes: Seq<Node>, path: Seq<Seq<char>>)
    requires
        path.len() > 0,
        !is_container(path.last()),
    ensures
        forall|at: int|
            0 <= at < walk_requests(category, nodes).len() && (#[trigger] walk_requests(
                category,
                nodes,
            )[at]) is Run ==> walk_requests(category, nodes)[at]->Run_0.input != path,
{
    assert forall|at: int|
        0 <= at < walk_requests(category, nodes).len() && (#[trigger] walk_requests(
            category,
            nodes,
        )[at]) is Run implies walk_requests(category, nodes)[at]->Run_0.input != path by {
        only_containers_are_exported(category, nodes, at);
    }
}

/// After a walk, every directory of the input tree was asked to be
/// mirrored below the output root under the path that it has below the
/// input root, whatever the files hold and however the runs ended.
pub proof fn walk_mirrors_every_directory(
    category: Category,
    nodes: Seq<Node>,
    path: Seq<Seq<char>>,
)
    requires
        leads_to(nodes, path, EntryKind::Directory),
    ensures
        walk_requests(category, nodes).contains(RequestView::Mirror(path)),
        walk_requests(category, nodes).contains(RequestView::List(path)),
{
    let root = Seq::<Seq<char>>::empty();
    let below = requests_within(category, root, nodes);
    let all = walk_requests(category, nodes);
    every_directory_is_mirrored(category, root, nodes, path);
    assert(root + path =~= path);
    let m = choose|m: int| 0 <= m < below.len() && below[m] == RequestView::Mirror(path);
    assert(all[2 + m] == RequestView::Mirror(path));
    let l = choose|l: int| 0 <= l < below.len() && below[l] == RequestView::List(path);
    assert(all[2 + l] == RequestView::List(path));
}

/// In a walk, the decompiler is asked to run on every container file of the tree.
pub proof fn walk_exports_every_container(
    category: Category,
    nodes: Seq<Node>,
    path: Seq<Seq<char>>,
)
    requires
        leads_to(nodes, path, EntryKind::File),
        is_container(path.last()),
    ensures
        walk_requests(category, nodes).contains(
            RequestView::Run(invocation_for(category, path.drop_last(), path.last())),
        ),
{
    let root = Seq::<Seq<char>>::empty();
    let below = requests_within(category, root, nodes);
    let all = walk_requests(category, nodes);
    let export = RequestView::Run(invocation_for(category, path.drop_last(), path.last()));
    every_container_is_exported(category, root, nodes, path);
    assert(root + path.drop_last() =~= path.drop_last());
    let m = choose|m: int| 0 <= m < below.len() && below[m] == export;
    assert(all[2 + m] == export);
}

/// The directories below the output root once `requests` were carried
/// out, where `before` holds those that were there already: these, and
/// every directory that was asked to be mirrored, with its ancestors.
pub open spec fn directories_after(
    before: Set<Seq<Seq<char>>>,
    requests: Seq<RequestView>,
) -> Set<Seq<Seq<char>>> {
    Set::new(
        |path: Seq<Seq<char>>|
            before.contains(path) || exists|i: int|
                0 <= i < requests.len() && (#[trigger] requests[i]) is Mirror && path.is_prefix_of(
                    requests[i]->Mirror_0,
                ),
    )
}

/// After a walk, the output tree has a directory for every directory of the
/// input tree, under the same path, and still has every directory that it
/// had before.
pub proof fn output_mirrors_input(
    category: Category,
    nodes: Seq<Node>,
    before: Set<Seq<Seq<char>>>,
    path: Seq<Seq<char>>,
)
    requires
        path.len() == 0 || leads_to(nodes, path, EntryKind::Directory) || before.contains(path),
    ensures
        directories_after(before, walk_requests(category, nodes)).contains(path),
{
    let requests = walk_requests(category, nodes);
    if before.contains(path) {
    } else if path.len() == 0 {
        assert(path =~= Seq::<Seq<char>>::empty());
        assert(requests[0] == RequestView::Mirror(path));
        assert(path.is_prefix_of(requests[0]->Mirror_0));
    } else {
        walk_mirrors_every_directory(category, nodes, path);
        let i = choose|i: int| 0 <= i < requests.len() && requests[i] == RequestView::Mirror(path);
        assert(path.is_prefix_of(requests[i]->Mirror_0));
    }
}

} // verus!
