//! A cleanup empties its directory, or refuses what exceeds its limits.
//!
//! The laws are stated of a quiet host: one that does what is due and that
//! nobody else changes meanwhile.
use vstd::prelude::*;

use super::cleanup::{CleanupAction, CleanupEvent, CleanupFrame, CleanupView};
use crate::error::FsErrorView;
use crate::perms::HostMetadata;

verus! {

/// What a name of a host directory stands for.
pub enum Node {
    /// A file or a symbolic link.
    Leaf { is_symlink: bool, len: u64 },
    /// A directory and what it holds.
    Branch(Seq<Node>),
}

/// How many names a directory tree holds, over all its directories.
pub open spec fn names_in(children: Seq<Node>) -> nat
    decreases children,
{
    if children.len() == 0 {
        0
    } else {
        names_in(children.drop_last()) + names_of(children.last())
    }
}

/// How many names one entry stands for: its own, and those below it.
pub open spec fn names_of(node: Node) -> nat
    decreases node,
{
    match node {
        Node::Leaf { .. } => 1,
        Node::Branch(children) => 1 + names_in(children),
    }
}

/// How many levels of directories lie below a directory.
pub open spec fn levels_below(children: Seq<Node>) -> nat
    decreases children,
{
    if children.len() == 0 {
        0
    } else {
        let before = levels_below(children.drop_last());
        let last = levels_of(children.last());
        if before >= last {
            before
        } else {
            last
        }
    }
}

/// How many levels of directories an entry stands for.
pub open spec fn levels_of(node: Node) -> nat
    decreases node,
{
    match node {
        Node::Leaf { .. } => 0,
        Node::Branch(children) => 1 + levels_below(children),
    }
}

/// A host directory during a cleanup: what it held, how many of its entries
/// were reported, and how many of them are gone.
#[verifier::ext_equal]
pub struct QuietDir {
    pub held: Seq<Node>,
    pub reported: nat,
    pub gone: nat,
}

impl QuietDir {
    /// A directory that was just entered.
    pub open spec fn entered(held: Seq<Node>) -> QuietDir {
        QuietDir { held, reported: 0, gone: 0 }
    }

    /// A directory whose entries are all gone.
    pub open spec fn emptied(held: Seq<Node>) -> QuietDir {
        QuietDir { held, reported: held.len(), gone: held.len() }
    }

    /// What the host reports of an entry, not following a symbolic link.
    pub open spec fn metadata(self, i: int) -> HostMetadata {
        match self.held[i] {
            Node::Leaf { is_symlink, len } => HostMetadata { is_dir: false, is_symlink, len },
            Node::Branch(_) => HostMetadata { is_dir: true, is_symlink: false, len: 0 },
        }
    }
}

/// What a quiet host does: the directories that it is inside of afterwards,
/// and what it reports. Only the entry after those that are gone can be
/// removed, and a directory only once it is empty.
pub open spec fn quiet_reply(dirs: Seq<QuietDir>, action: CleanupAction) -> (
    Seq<QuietDir>,
    CleanupEvent,
) {
    let top = dirs.last();
    let around = dirs.drop_last();
    match action {
        CleanupAction::List => if top.reported < top.held.len() {
            (
                around.push(QuietDir { reported: top.reported + 1, ..top }),
                CleanupEvent::Entry(Ok(())),
            )
        } else {
            (dirs, CleanupEvent::Listed)
        },
        CleanupAction::Inspect(i) => (dirs, CleanupEvent::Found(Ok(top.metadata(i as int)))),
        CleanupAction::Descend(i) => (
            dirs.push(QuietDir::entered(top.held[i as int]->Branch_0)),
            CleanupEvent::Entered(Ok(())),
        ),
        CleanupAction::Unlink(i) => if i == top.gone && top.held[i as int] is Leaf {
            (
                around.push(QuietDir { gone: top.gone + 1, ..top }),
                CleanupEvent::Removed(Ok(())),
            )
        } else {
            (dirs, CleanupEvent::Removed(Err(arbitrary())))
        },
        CleanupAction::RemoveChild(i) => if i == around.last().gone && top.gone
            == top.held.len() {
            (
                around.drop_last().push(
                    QuietDir { gone: around.last().gone + 1, ..around.last() },
                ),
                CleanupEvent::Removed(Ok(())),
            )
        } else {
            (around, CleanupEvent::Removed(Err(arbitrary())))
        },
        CleanupAction::Finish => (dirs, CleanupEvent::Listed),
    }
}

/// A cleanup together with the directories of the host.
#[verifier::ext_equal]
pub struct QuietRun {
    pub cleanup: CleanupView,
    pub dirs: Seq<QuietDir>,
}

impl QuietRun {
    /// The start of a cleanup in a directory.
    pub open spec fn start(held: Seq<Node>, max_entries: u64, max_depth: nat) -> QuietRun {
        QuietRun {
            cleanup: CleanupView::begin(max_entries, max_depth),
            dirs: seq![QuietDir::entered(held)],
        }
    }

    /// Whether the cleanup has ended without a failure, every entry of the
    /// directory is gone, and every name below it was counted once.
    pub open spec fn clean(self, held: Seq<Node>) -> bool {
        &&& self.cleanup.action is Finish
        &&& self.cleanup.failure is None
        &&& self.dirs == seq![QuietDir::emptied(held)]
        &&& self.cleanup.entries == names_in(held)
    }

    /// Whether the cleanup has ended because a limit was exceeded.
    pub open spec fn over_limit(self) -> bool {
        &&& self.cleanup.action is Finish
        &&& self.cleanup.failure == Some(FsErrorView::Quota)
    }

    /// One host operation, and the cleanup after it.
    pub open spec fn step(self) -> QuietRun {
        let (dirs, event) = quiet_reply(self.dirs, self.cleanup.action);
        QuietRun { cleanup: self.cleanup.after(event), dirs }
    }

    /// So many host operations.
    pub open spec fn steps(self, n: nat) -> QuietRun
        decreases n,
    {
        if n == 0 {
            self
        } else {
            self.step().steps((n - 1) as nat)
        }
    }

    /// Whether some number of host operations leads to the end at a limit.
    pub open spec fn comes_over_limit(self) -> bool {
        exists|n: nat| (#[trigger] self.steps(n)).over_limit()
    }

    /// Whether some number of host operations leads to `other`.
    pub open spec fn leads_to(self, other: QuietRun) -> bool {
        exists|n: nat| self.steps(n) == other
    }
}

proof fn lemma_steps_compose(a: QuietRun, n: nat, m: nat)
    ensures
        a.steps(n).steps(m) == a.steps(n + m),
    decreases n,
{
    if n > 0 {
        lemma_steps_compose(a.step(), (n - 1) as nat, m);
    }
}

proof fn lemma_leads_on(a: QuietRun, b: QuietRun, c: QuietRun)
    requires
        a.leads_to(b),
        b.leads_to(c),
    ensures
        a.leads_to(c),
{
    let n = choose|n: nat| a.steps(n) == b;
    let m = choose|m: nat| b.steps(m) == c;
    lemma_steps_compose(a, n, m);
    assert(a.steps(n + m) == c);
}

proof fn lemma_comes_over_later(a: QuietRun, b: QuietRun)
    requires
        a.leads_to(b),
        b.comes_over_limit(),
    ensures
        a.comes_over_limit(),
{
    let n = choose|n: nat| a.steps(n) == b;
    let m = choose|m: nat| (#[trigger] b.steps(m)).over_limit();
    lemma_steps_compose(a, n, m);
    assert(a.steps(n + m).over_limit());
}

proof fn lemma_one_step(a: QuietRun)
    ensures
        a.leads_to(a.step()),
        a.leads_to(a),
{
    assert(a.step().steps(0) == a.step());
    assert(a.steps(1) == a.step().steps(0));
    assert(a.steps(0) == a);
}

/// The tree below an entry is smaller and less deep than the tree around it.
proof fn lemma_child(children: Seq<Node>, k: int)
    requires
        0 <= k < children.len(),
    ensures
        names_of(children[k]) + names_in(children.take(k)) == names_in(children.take(k + 1)),
        names_in(children.take(k + 1)) <= names_in(children),
        levels_of(children[k]) <= levels_below(children),
        names_of(children[k]) >= 1,
    decreases children.len(),
{
    assert(children.take(k + 1).drop_last() =~= children.take(k));
    assert(children.take(k + 1).last() == children[k]);
    if k < children.len() - 1 {
        let shorter = children.drop_last();
        lemma_child(shorter, k);
        assert(shorter.take(k + 1) =~= children.take(k + 1));
        assert(shorter[k] == children[k]);
    } else {
        assert(children.take(k + 1) =~= children);
    }
}

/// Listing a directory reports every entry.
proof fn lemma_lists(run: QuietRun, around: Seq<CleanupFrame>, outer: Seq<QuietDir>, top: QuietDir)
    requires
        run.cleanup.action is List,
        run.cleanup.failure is None,
        run.cleanup.frames == around.push(
            CleanupFrame { total: top.reported as u64, next: 0 },
        ),
        run.dirs == outer.push(top),
        top.reported <= top.held.len(),
        top.held.len() <= u64::MAX,
        run.cleanup.entries + (top.held.len() - top.reported) <= run.cleanup.max_entries,
    ensures
        run.leads_to(
            (QuietRun {
                cleanup: (CleanupView {
                    entries: (run.cleanup.entries + (top.held.len() - top.reported)) as u64,
                    frames: around.push(CleanupFrame { total: top.held.len() as u64, next: 0 }),
                    ..run.cleanup
                }).onward(),
                dirs: outer.push(QuietDir { reported: top.held.len(), ..top }),
            }),
        ),
    decreases top.held.len() - top.reported,
{
    let next = run.step();
    lemma_one_step(run);
    assert(run.dirs.drop_last() =~= outer);
    assert(run.cleanup.frames.drop_last() =~= around);
    if top.reported < top.held.len() {
        let listed = QuietDir { reported: top.reported + 1, ..top };
        assert(next.dirs == outer.push(listed));
        assert(next.cleanup.frames =~= around.push(
            CleanupFrame { total: listed.reported as u64, next: 0 },
        ));
        lemma_lists(next, around, outer, listed);
        let end = QuietRun {
            cleanup: (CleanupView {
                entries: (next.cleanup.entries + (top.held.len() - listed.reported)) as u64,
                frames: around.push(CleanupFrame { total: top.held.len() as u64, next: 0 }),
                ..next.cleanup
            }).onward(),
            dirs: outer.push(QuietDir { reported: top.held.len(), ..listed }),
        };
        lemma_leads_on(run, next, end);
    } else {
        assert(next.cleanup == run.cleanup.onward());
        assert(top == QuietDir { reported: top.held.len(), ..top });
    }
}

/// The state of a run inside a directory of which `done` entries are gone.
spec fn inside(
    c: CleanupView,
    around: Seq<CleanupFrame>,
    outer: Seq<QuietDir>,
    held: Seq<Node>,
    done: nat,
    entries: u64,
) -> QuietRun {
    QuietRun {
        cleanup: (CleanupView {
            entries,
            frames: around.push(CleanupFrame { total: held.len() as u64, next: done as u64 }),
            ..c
        }).onward(),
        dirs: outer.push(QuietDir { held, reported: held.len(), gone: done }),
    }
}

/// From the moment a directory is entered until all its entries are gone.
proof fn lemma_empties(
    run: QuietRun,
    around: Seq<CleanupFrame>,
    outer: Seq<QuietDir>,
    held: Seq<Node>,
)
    requires
        run.cleanup.action is List,
        run.cleanup.failure is None,
        run.cleanup.frames == around.push(CleanupFrame { total: 0, next: 0 }),
        run.dirs == outer.push(QuietDir::entered(held)),
        run.cleanup.entries + names_in(held) <= run.cleanup.max_entries,
        around.len() + levels_below(held) <= run.cleanup.max_depth,
    ensures
        run.leads_to(
            inside(
                run.cleanup,
                around,
                outer,
                held,
                held.len(),
                (run.cleanup.entries + names_in(held)) as u64,
            ),
        ),
    decreases names_in(held), held.len() + 1,
{
    let n = held.len();
    lemma_names_at_least(held);
    lemma_lists(run, around, outer, QuietDir::entered(held));
    let listed = inside(run.cleanup, around, outer, held, 0, (run.cleanup.entries + n) as u64);
    assert(run.leads_to(listed));
    assert(held.take(0) =~= Seq::<Node>::empty());
    lemma_empties_from(run.cleanup, around, outer, held, 0, (run.cleanup.entries + n) as u64);
    lemma_leads_on(
        run,
        listed,
        inside(
            run.cleanup,
            around,
            outer,
            held,
            n,
            (run.cleanup.entries + names_in(held)) as u64,
        ),
    );
}

/// A tree has at least as many names as its topmost directory.
proof fn lemma_names_at_least(children: Seq<Node>)
    ensures
        names_in(children) >= children.len(),
    decreases children.len(),
{
    if children.len() > 0 {
        lemma_names_at_least(children.drop_last());
        lemma_child(children, children.len() - 1);
    }
}

/// How many names lie below the entries of a directory from `k` on.
spec fn names_below_from(children: Seq<Node>, k: int) -> int {
    names_in(children) - names_in(children.take(k)) - (children.len() - k)
}

/// From `done` entries gone until all are.
proof fn lemma_empties_from(
    c: CleanupView,
    around: Seq<CleanupFrame>,
    outer: Seq<QuietDir>,
    held: Seq<Node>,
    done: nat,
    entries: u64,
)
    requires
        c.failure is None,
        done <= held.len(),
        held.len() <= u64::MAX,
        entries + names_below_from(held, done as int) <= c.max_entries,
        around.len() + levels_below(held) <= c.max_depth,
    ensures
        inside(c, around, outer, held, done, entries).leads_to(
            inside(
                c,
                around,
                outer,
                held,
                held.len(),
                (entries + names_below_from(held, done as int)) as u64,
            ),
        ),
    decreases names_in(held), held.len() - done,
{
    let start = inside(c, around, outer, held, done, entries);
    let n = held.len();
    lemma_rest_at_least(held, done as int);
    if done == n {
        assert(held.take(n as int) =~= held);
        lemma_one_step(start);
    } else {
        lemma_child(held, done as int);
        lemma_rest_at_least(held, done as int + 1);
        let end = inside(
            c,
            around,
            outer,
            held,
            n,
            (entries + names_below_from(held, done as int)) as u64,
        );
        match held[done as int] {
            Node::Leaf { .. } => {
                lemma_leaf_goes(c, around, outer, held, done, entries);
                lemma_empties_from(c, around, outer, held, done + 1, entries);
                lemma_leads_on(start, inside(c, around, outer, held, done + 1, entries), end);
            },
            Node::Branch(below) => {
                lemma_branch_opens(c, around, outer, held, done, entries);
                let frame = CleanupFrame { total: n as u64, next: done as u64 };
                let around2 = around.push(frame);
                let outer2 = outer.push(QuietDir { held, reported: n, gone: done });
                let opened = opening(c, around2, outer2, below, entries);
                lemma_empties(opened, around2, outer2, below);
                let more = (entries + names_in(below)) as u64;
                let cleared = inside(opened.cleanup, around2, outer2, below, below.len(), more);
                lemma_leads_on(start, opened, cleared);
                lemma_branch_goes(c, around, outer, held, done, entries, more);
                let after = inside(c, around, outer, held, done + 1, more);
                lemma_leads_on(start, cleared, after);
                lemma_empties_from(c, around, outer, held, done + 1, more);
                lemma_leads_on(start, after, end);
            },
        }
    }
}

/// The state of a run that has just opened a directory.
spec fn opening(
    c: CleanupView,
    around: Seq<CleanupFrame>,
    outer: Seq<QuietDir>,
    held: Seq<Node>,
    entries: u64,
) -> QuietRun {
    QuietRun {
        cleanup: CleanupView {
            entries,
            frames: around.push(CleanupFrame { total: 0, next: 0 }),
            action: CleanupAction::List,
            ..c
        },
        dirs: outer.push(QuietDir::entered(held)),
    }
}

/// An entry that is no directory is removed.
proof fn lemma_leaf_goes(
    c: CleanupView,
    around: Seq<CleanupFrame>,
    outer: Seq<QuietDir>,
    held: Seq<Node>,
    done: nat,
    entries: u64,
)
    requires
        c.failure is None,
        done < held.len() <= u64::MAX,
        held[done as int] is Leaf,
    ensures
        inside(c, around, outer, held, done, entries).leads_to(
            inside(c, around, outer, held, done + 1, entries),
        ),
{
    let start = inside(c, around, outer, held, done, entries);
    assert(start.cleanup.action == CleanupAction::Inspect(done as u64));
    assert(start.dirs.drop_last() =~= outer);
    assert(start.cleanup.frames.drop_last() =~= around);
    let probed = start.step();
    let second = probed.step();
    lemma_one_step(start);
    lemma_one_step(probed);
    lemma_leads_on(start, probed, second);
    assert(probed.cleanup.action == CleanupAction::Unlink(done as u64));
    let after = inside(c, around, outer, held, done + 1, entries);
    assert(second.dirs =~= after.dirs);
    assert(second.cleanup == probed.cleanup.entry_done());
    assert(second.cleanup =~= after.cleanup);
}

/// An entry that is a directory is opened, where it is not too deep.
proof fn lemma_branch_opens(
    c: CleanupView,
    around: Seq<CleanupFrame>,
    outer: Seq<QuietDir>,
    held: Seq<Node>,
    done: nat,
    entries: u64,
)
    requires
        c.failure is None,
        done < held.len() <= u64::MAX,
        held[done as int] is Branch,
        around.len() + 1 <= c.max_depth,
    ensures
        inside(c, around, outer, held, done, entries).leads_to(
            opening(
                c,
                around.push(CleanupFrame { total: held.len() as u64, next: done as u64 }),
                outer.push(QuietDir { held, reported: held.len(), gone: done }),
                held[done as int]->Branch_0,
                entries,
            ),
        ),
{
    let start = inside(c, around, outer, held, done, entries);
    assert(start.cleanup.action == CleanupAction::Inspect(done as u64));
    let probed = start.step();
    let second = probed.step();
    lemma_one_step(start);
    lemma_one_step(probed);
    lemma_leads_on(start, probed, second);
    assert(probed.cleanup.action == CleanupAction::Descend(done as u64));
    let opened = opening(
        c,
        around.push(CleanupFrame { total: held.len() as u64, next: done as u64 }),
        outer.push(QuietDir { held, reported: held.len(), gone: done }),
        held[done as int]->Branch_0,
        entries,
    );
    assert(second.dirs =~= opened.dirs);
    assert(second.cleanup =~= opened.cleanup);
}

/// A directory that is empty now is removed from the one around it.
proof fn lemma_branch_goes(
    c: CleanupView,
    around: Seq<CleanupFrame>,
    outer: Seq<QuietDir>,
    held: Seq<Node>,
    done: nat,
    entries: u64,
    more: u64,
)
    requires
        c.failure is None,
        done < held.len() <= u64::MAX,
        held[done as int] is Branch,
    ensures
        ({
            let around2 = around.push(
                CleanupFrame { total: held.len() as u64, next: done as u64 },
            );
            let outer2 = outer.push(QuietDir { held, reported: held.len(), gone: done });
            let below = held[done as int]->Branch_0;
            let opened = opening(c, around2, outer2, below, entries);
            inside(opened.cleanup, around2, outer2, below, below.len(), more).leads_to(
                inside(c, around, outer, held, done + 1, more),
            )
        }),
{
    let around2 = around.push(CleanupFrame { total: held.len() as u64, next: done as u64 });
    let outer2 = outer.push(QuietDir { held, reported: held.len(), gone: done });
    let below = held[done as int]->Branch_0;
    let opened = opening(c, around2, outer2, below, entries);
    let cleared = inside(opened.cleanup, around2, outer2, below, below.len(), more);
    let inner = around2.push(
        CleanupFrame { total: below.len() as u64, next: below.len() as u64 },
    );
    assert(inner.drop_last() =~= around2);
    assert(cleared.cleanup.frames =~= around2);
    assert(cleared.cleanup.action == CleanupAction::RemoveChild(done as u64));
    assert(cleared.dirs.drop_last() =~= outer2);
    assert(outer2.drop_last() =~= outer);
    let removed = cleared.step();
    lemma_one_step(cleared);
    let after = inside(c, around, outer, held, done + 1, more);
    assert(removed.dirs =~= after.dirs);
    assert(cleared.cleanup.frames.drop_last() =~= around);
    assert(removed.cleanup =~= after.cleanup);
}

/// Every entry stands for at least its own name.
proof fn lemma_rest_at_least(children: Seq<Node>, k: int)
    requires
        0 <= k <= children.len(),
    ensures
        names_below_from(children, k) >= 0,
    decreases children.len() - k,
{
    if k == children.len() {
        assert(children.take(k) =~= children);
    } else {
        lemma_child(children, k);
        lemma_rest_at_least(children, k + 1);
    }
}

/// Some entry is as deep as the tree around it.
proof fn lemma_deepest(children: Seq<Node>) -> (k: int)
    requires
        levels_below(children) > 0,
    ensures
        0 <= k < children.len(),
        levels_of(children[k]) == levels_below(children),
    decreases children.len(),
{
    let shorter = children.drop_last();
    if levels_below(shorter) >= levels_of(children.last()) {
        lemma_deepest(shorter)
    } else {
        children.len() - 1
    }
}

/// Listing a directory with more entries than may still be listed ends at the
/// limit.
proof fn lemma_lists_too_many(run: QuietRun, outer: Seq<QuietDir>, top: QuietDir)
    requires
        run.cleanup.action is List,
        run.cleanup.failure is None,
        run.dirs == outer.push(top),
        top.reported <= top.held.len(),
        run.cleanup.entries <= run.cleanup.max_entries,
        run.cleanup.entries + (top.held.len() - top.reported) > run.cleanup.max_entries,
    ensures
        run.comes_over_limit(),
    decreases top.held.len() - top.reported,
{
    let next = run.step();
    lemma_one_step(run);
    assert(run.dirs.drop_last() =~= outer);
    assert(top.reported < top.held.len());
    if run.cleanup.entries >= run.cleanup.max_entries {
        assert(next.steps(0).over_limit());
    } else {
        let listed = QuietDir { reported: top.reported + 1, ..top };
        assert(next.dirs == outer.push(listed));
        lemma_lists_too_many(next, outer, listed);
    }
    lemma_comes_over_later(run, next);
}

/// Whether a directory is too large or too deep for what is left of the limits.
spec fn exceeds(c: CleanupView, around: Seq<CleanupFrame>, held: Seq<Node>, entries: u64) -> bool {
    entries + names_in(held) > c.max_entries || around.len() + levels_below(held) > c.max_depth
}

/// From the moment a directory is entered that exceeds a limit until the end.
proof fn lemma_exceeds(
    c: CleanupView,
    around: Seq<CleanupFrame>,
    outer: Seq<QuietDir>,
    held: Seq<Node>,
    entries: u64,
)
    requires
        c.failure is None,
        entries <= c.max_entries,
        around.len() <= c.max_depth,
        exceeds(c, around, held, entries),
    ensures
        opening(c, around, outer, held, entries).comes_over_limit(),
    decreases names_in(held), held.len() + 1,
{
    let run = opening(c, around, outer, held, entries);
    let n = held.len();
    lemma_names_at_least(held);
    if entries + n > c.max_entries {
        lemma_lists_too_many(run, outer, QuietDir::entered(held));
    } else {
        lemma_lists(run, around, outer, QuietDir::entered(held));
        let listed = inside(c, around, outer, held, 0, (entries + n) as u64);
        assert(run.leads_to(listed));
        assert(held.take(0) =~= Seq::<Node>::empty());
        if around.len() + levels_below(held) > c.max_depth {
            let k = lemma_deepest(held);
            assert(too_deep(c, around, held[k]));
        }
        lemma_exceeds_from(c, around, outer, held, 0, (entries + n) as u64);
        lemma_comes_over_later(run, listed);
    }
}

/// Whether an entry has more levels of directories than are left.
spec fn too_deep(c: CleanupView, around: Seq<CleanupFrame>, node: Node) -> bool {
    around.len() + levels_of(node) > c.max_depth
}

/// From `done` entries gone, where those that are left exceed a limit.
proof fn lemma_exceeds_from(
    c: CleanupView,
    around: Seq<CleanupFrame>,
    outer: Seq<QuietDir>,
    held: Seq<Node>,
    done: nat,
    entries: u64,
)
    requires
        c.failure is None,
        done <= held.len() <= u64::MAX,
        entries <= c.max_entries,
        around.len() <= c.max_depth,
        entries + names_below_from(held, done as int) > c.max_entries || exists|k: int|
            done <= k < held.len() && #[trigger] too_deep(c, around, held[k]),
    ensures
        inside(c, around, outer, held, done, entries).comes_over_limit(),
    decreases names_in(held), held.len() - done,
{
    let start = inside(c, around, outer, held, done, entries);
    let n = held.len();
    if done == n {
        assert(held.take(n as int) =~= held);
    } else {
        lemma_child(held, done as int);
        match held[done as int] {
            Node::Leaf { .. } => {
                lemma_leaf_goes(c, around, outer, held, done, entries);
                lemma_exceeds_from(c, around, outer, held, done + 1, entries);
                lemma_comes_over_later(
                    start,
                    inside(c, around, outer, held, done + 1, entries),
                );
            },
            Node::Branch(below) => {
                if around.len() + 1 > c.max_depth {
                    assert(start.cleanup.action == CleanupAction::Inspect(done as u64));
                    lemma_one_step(start);
                    assert(start.step().steps(0).over_limit());
                    lemma_comes_over_later(start, start.step());
                } else {
                    lemma_branch_opens(c, around, outer, held, done, entries);
                    let frame = CleanupFrame { total: n as u64, next: done as u64 };
                    let around2 = around.push(frame);
                    let outer2 = outer.push(QuietDir { held, reported: n, gone: done });
                    let opened = opening(c, around2, outer2, below, entries);
                    if exceeds(c, around2, below, entries) {
                        lemma_exceeds(c, around2, outer2, below, entries);
                        lemma_comes_over_later(start, opened);
                    } else {
                        lemma_empties(opened, around2, outer2, below);
                        let more = (entries + names_in(below)) as u64;
                        let cleared = inside(
                            opened.cleanup,
                            around2,
                            outer2,
                            below,
                            below.len(),
                            more,
                        );
                        lemma_leads_on(start, opened, cleared);
                        lemma_branch_goes(c, around, outer, held, done, entries, more);
                        let after = inside(c, around, outer, held, done + 1, more);
                        lemma_leads_on(start, cleared, after);
                        lemma_exceeds_from(c, around, outer, held, done + 1, more);
                        lemma_comes_over_later(start, after);
                    }
                }
            },
        }
    }
}

/// A cleanup empties its directory. On a quiet host, a tree that holds no more
/// names than the limit allows, and no more levels of directories, is removed
/// entirely: the cleanup comes to an end without a failure, inside the
/// directory that it started in, every entry of that directory is gone, and as
/// many entries were counted as the tree held names.
pub proof fn law_cleanup_empties_the_directory(held: Seq<Node>, max_entries: u64, max_depth: nat)
    requires
        names_in(held) <= max_entries,
        levels_below(held) <= max_depth,
    ensures
        exists|n: nat| (#[trigger] QuietRun::start(held, max_entries, max_depth).steps(n)).clean(held),
{
    let start = QuietRun::start(held, max_entries, max_depth);
    let around = Seq::<CleanupFrame>::empty();
    let outer = Seq::<QuietDir>::empty();
    assert(start.cleanup.frames =~= around.push(CleanupFrame { total: 0, next: 0 }));
    assert(start.dirs =~= outer.push(QuietDir::entered(held)));
    lemma_names_at_least(held);
    lemma_empties(start, around, outer, held);
    let end = inside(start.cleanup, around, outer, held, held.len(), names_in(held) as u64);
    let n = choose|n: nat| start.steps(n) == end;
    assert(start.steps(n) == end);
    assert(end.dirs =~= seq![QuietDir::emptied(held)]);
    assert(start.steps(n).clean(held));
}

/// A cleanup refuses what exceeds its limits. On a quiet host, the cleanup of a
/// tree that holds more names than the limit allows, or more levels of
/// directories, comes to an end, and reports that a quota was exceeded.
pub proof fn law_cleanup_refuses_what_exceeds_its_limits(
    held: Seq<Node>,
    max_entries: u64,
    max_depth: nat,
)
    requires
        names_in(held) > max_entries || levels_below(held) > max_depth,
    ensures
        exists|n: nat|
            (#[trigger] QuietRun::start(held, max_entries, max_depth).steps(n)).over_limit(),
{
    let start = QuietRun::start(held, max_entries, max_depth);
    let around = Seq::<CleanupFrame>::empty();
    let outer = Seq::<QuietDir>::empty();
    lemma_exceeds(start.cleanup, around, outer, held, 0);
    let opened = opening(start.cleanup, around, outer, held, 0);
    assert(start.cleanup.frames =~= opened.cleanup.frames);
    assert(start.dirs =~= opened.dirs);
    assert(start =~= opened);
}

} // verus!
