//! Emptying a directory tree, one host operation at a time.
//!
//! The host keeps the directories that it is inside of, innermost last, each
//! with the names that it listed. The cleanup says which operation is due on
//! the innermost one, and goes on by what the host replies.
use vstd::prelude::*;

use crate::error::{outcome, FsError, FsErrorView, HostError, IoErrorKind};
use crate::perms::{Dir, HostMetadata};

verus! {

/// The host operation that is due.
#[derive(Debug, Clone, Copy, PartialEq, Eq, Structural)]
pub enum CleanupAction {
    /// List the current directory. Every entry is reported, and then the end.
    List,
    /// Look up a listed entry of the current directory, not following a
    /// symbolic link.
    Inspect(u64),
    /// Open a listed entry of the current directory, which is a directory. It
    /// becomes the current one.
    Descend(u64),
    /// Remove a listed entry of the current directory, which is no directory.
    Unlink(u64),
    /// Leave the current directory, which is empty now. The one around it
    /// becomes the current one, and the listed entry that was left is removed
    /// from it.
    RemoveChild(u64),
    /// Nothing more.
    Finish,
}

/// What the host reports.
pub enum CleanupEvent {
    /// One more entry of the current directory, or that it cannot be listed.
    Entry(Result<(), HostError>),
    /// The current directory has no more entries.
    Listed,
    /// What was found at the entry that was looked up.
    Found(Result<HostMetadata, HostError>),
    /// Whether the entry was opened.
    Entered(Result<(), HostError>),
    /// Whether the entry was removed.
    Removed(Result<(), HostError>),
}

/// A directory that the cleanup is inside of: how many entries it had, and how
/// many of them are dealt with.
#[derive(Debug, Clone, Copy, PartialEq, Eq, Structural)]
pub struct CleanupFrame {
    pub total: u64,
    pub next: u64,
}

/// A cleanup, in the form that contracts use.
#[verifier::ext_equal]
pub struct CleanupView {
    pub max_entries: u64,
    pub max_depth: nat,
    /// How many entries were listed so far, over all directories.
    pub entries: u64,
    /// The directories that the cleanup is inside of, innermost last.
    pub frames: Seq<CleanupFrame>,
    pub action: CleanupAction,
    pub failure: Option<FsErrorView>,
}

impl CleanupView {
    /// A cleanup that is about to list its root.
    pub open spec fn begin(max_entries: u64, max_depth: nat) -> CleanupView {
        CleanupView {
            max_entries,
            max_depth,
            entries: 0,
            frames: seq![CleanupFrame { total: 0, next: 0 }],
            action: CleanupAction::List,
            failure: None,
        }
    }

    /// The cleanup ends with an error.
    pub open spec fn failed(self, error: FsErrorView) -> CleanupView {
        CleanupView { action: CleanupAction::Finish, failure: Some(error), ..self }
    }

    /// The innermost directory changes.
    pub open spec fn with_top(self, top: CleanupFrame) -> CleanupView {
        CleanupView { frames: self.frames.drop_last().push(top), ..self }
    }

    /// What is due next in the innermost directory: its next entry, or, once
    /// all are dealt with, to leave it. The root itself stays.
    pub open spec fn onward(self) -> CleanupView {
        let top = self.frames.last();
        if top.next < top.total {
            CleanupView { action: CleanupAction::Inspect(top.next), ..self }
        } else if self.frames.len() == 1 {
            CleanupView { action: CleanupAction::Finish, ..self }
        } else {
            let around = self.frames.drop_last();
            CleanupView {
                frames: around,
                action: CleanupAction::RemoveChild(around.last().next),
                ..self
            }
        }
    }

    /// The current entry is dealt with.
    pub open spec fn entry_done(self) -> CleanupView {
        let top = self.frames.last();
        self.with_top(CleanupFrame { total: top.total, next: (top.next + 1) as u64 }).onward()
    }

    /// The cleanup after the host reported. A report that answers nothing
    /// changes nothing.
    pub open spec fn after(self, event: CleanupEvent) -> CleanupView {
        let top = self.frames.last();
        match (self.action, event) {
            (CleanupAction::List, CleanupEvent::Entry(Err(e))) => self.failed(e.classify()),
            (CleanupAction::List, CleanupEvent::Entry(Ok(_))) => if self.entries
                >= self.max_entries {
                self.failed(FsError::Quota)
            } else {
                CleanupView { entries: (self.entries + 1) as u64, ..self }.with_top(
                    CleanupFrame { total: (top.total + 1) as u64, next: top.next },
                )
            },
            (CleanupAction::List, CleanupEvent::Listed) => self.onward(),
            (CleanupAction::Inspect(_), CleanupEvent::Found(Err(e))) => if e.kind
                == IoErrorKind::NotFound {
                self.entry_done()
            } else {
                self.failed(e.classify())
            },
            (CleanupAction::Inspect(_), CleanupEvent::Found(Ok(found))) => if !found.is_dir {
                CleanupView { action: CleanupAction::Unlink(top.next), ..self }
            } else if self.frames.len() > self.max_depth {
                self.failed(FsError::Quota)
            } else {
                CleanupView { action: CleanupAction::Descend(top.next), ..self }
            },
            (CleanupAction::Descend(_), CleanupEvent::Entered(Err(e))) => self.failed(
                e.classify(),
            ),
            (CleanupAction::Descend(_), CleanupEvent::Entered(Ok(_))) => CleanupView {
                frames: self.frames.push(CleanupFrame { total: 0, next: 0 }),
                action: CleanupAction::List,
                ..self
            },
            (CleanupAction::Unlink(_), CleanupEvent::Removed(Err(e))) => self.failed(e.classify()),
            (CleanupAction::Unlink(_), CleanupEvent::Removed(Ok(_))) => self.entry_done(),
            (CleanupAction::RemoveChild(_), CleanupEvent::Removed(Err(e))) => self.failed(
                e.classify(),
            ),
            (CleanupAction::RemoveChild(_), CleanupEvent::Removed(Ok(_))) => self.entry_done(),
            _ => self,
        }
    }

    /// The entries dealt with or waiting in each directory were all listed.
    pub open spec fn listed_in_all(self) -> bool {
        forall|i: int|
            0 <= i < self.frames.len() ==> (#[trigger] self.frames[i]).next <= self.frames[i].total
                <= self.entries
    }

    /// What holds at every point of a cleanup: no more entries were listed
    /// than the limit allows, no directory is deeper than the limit allows,
    /// and what is due concerns the current entry of the innermost directory.
    pub open spec fn wf(self) -> bool {
        &&& self.entries <= self.max_entries
        &&& 1 <= self.frames.len() <= self.max_depth + 1
        &&& self.listed_in_all()
        &&& forall|i: int|
            0 <= i < self.frames.len() - 1 ==> (#[trigger] self.frames[i]).next
                < self.frames[i].total
        &&& match self.action {
            CleanupAction::List => self.frames.last().next == 0,
            CleanupAction::Inspect(i) => i == self.frames.last().next && i
                < self.frames.last().total,
            CleanupAction::Descend(i) => i == self.frames.last().next && i
                < self.frames.last().total && self.frames.len() <= self.max_depth,
            CleanupAction::Unlink(i) => i == self.frames.last().next && i
                < self.frames.last().total,
            CleanupAction::RemoveChild(i) => i == self.frames.last().next && i
                < self.frames.last().total,
            CleanupAction::Finish => self.failure is None ==> self.frames.len() == 1
                && self.frames.last().next == self.frames.last().total,
        }
        &&& self.failure is Some ==> self.action is Finish
    }
}

/// Every report keeps what holds of a cleanup.
pub proof fn law_cleanup_keeps_its_bounds(c: CleanupView, event: CleanupEvent)
    requires
        c.wf(),
    ensures
        c.after(event).wf(),
        c.after(event).max_entries == c.max_entries,
        c.after(event).max_depth == c.max_depth,
{
    lemma_after(c, event);
}

/// A cleanup never descends into an entry that the host did not just report
/// to be a directory: it never traverses a symbolic link, which is unlinked
/// instead.
pub proof fn law_cleanup_does_not_follow_links(c: CleanupView, event: CleanupEvent)
    ensures
        c.after(event).action is Descend && c.action !is Descend ==> {
            &&& c.action is Inspect
            &&& event matches CleanupEvent::Found(Ok(found)) && found.is_dir
        },
        c.action is Inspect && (event matches CleanupEvent::Found(Ok(found)) && !found.is_dir)
            ==> c.after(event).action == CleanupAction::Unlink(c.frames.last().next),
{
}

/// A cleanup that has ended stays as it is.
pub proof fn law_cleanup_ends_once(c: CleanupView, event: CleanupEvent)
    requires
        c.action is Finish,
    ensures
        c.after(event) == c,
{
}

/// The step function written out, with what it keeps.
proof fn lemma_after(c: CleanupView, event: CleanupEvent)
    requires
        c.wf(),
    ensures
        c.after(event).wf(),
        c.after(event).max_entries == c.max_entries,
        c.after(event).max_depth == c.max_depth,
{
    let n = c.frames.len();
    assert(c.frames.drop_last() =~= c.frames.take(n - 1));
    let top = c.frames.last();
    assert(c.frames[n - 1] == top);
    match (c.action, event) {
        (CleanupAction::List, CleanupEvent::Listed) => {
            lemma_onward(c);
        },
        (CleanupAction::List, CleanupEvent::Entry(Ok(_))) => {
            if c.entries < c.max_entries {
                let next = c.after(event);
                assert forall|i: int| 0 <= i < next.frames.len() implies (
                #[trigger] next.frames[i]).next <= next.frames[i].total <= next.entries by {
                    if i < n - 1 {
                        assert(next.frames[i] == c.frames[i]);
                    }
                }
                assert forall|i: int| 0 <= i < next.frames.len() - 1 implies (
                #[trigger] next.frames[i]).next < next.frames[i].total by {
                    assert(next.frames[i] == c.frames[i]);
                }
            }
        },
        (CleanupAction::Descend(_), CleanupEvent::Entered(Ok(_))) => {
            let next = c.after(event);
            assert forall|i: int| 0 <= i < next.frames.len() - 1 implies (
            #[trigger] next.frames[i]).next < next.frames[i].total by {
                assert(next.frames[i] == c.frames[i]);
            }
            assert forall|i: int| 0 <= i < next.frames.len() implies (
            #[trigger] next.frames[i]).next <= next.frames[i].total <= next.entries by {
                if i < n {
                    assert(next.frames[i] == c.frames[i]);
                }
            }
        },
        (CleanupAction::Inspect(_), CleanupEvent::Found(Err(e))) => {
            if e.kind == IoErrorKind::NotFound {
                lemma_entry_done(c);
            }
        },
        (CleanupAction::Unlink(_), CleanupEvent::Removed(Ok(_))) => {
            lemma_entry_done(c);
        },
        (CleanupAction::RemoveChild(_), CleanupEvent::Removed(Ok(_))) => {
            lemma_entry_done(c);
        },
        _ => {},
    }
}

proof fn lemma_onward(c: CleanupView)
    requires
        c.failure is None,
        c.entries <= c.max_entries,
        1 <= c.frames.len() <= c.max_depth + 1,
        c.listed_in_all(),
        forall|i: int|
            0 <= i < c.frames.len() - 1 ==> (#[trigger] c.frames[i]).next < c.frames[i].total,
    ensures
        c.onward().wf(),
        c.onward().max_entries == c.max_entries,
        c.onward().max_depth == c.max_depth,
{
    let n = c.frames.len();
    let next = c.onward();
    assert(c.frames[n - 1] == c.frames.last());
    if c.frames.last().next >= c.frames.last().total && n > 1 {
        let around = c.frames.drop_last();
        assert(around.last() == c.frames[n - 2]);
        assert forall|i: int| 0 <= i < around.len() implies (#[trigger] around[i]).next
            < around[i].total <= c.entries by {
            assert(around[i] == c.frames[i]);
        }
    }
}

proof fn lemma_entry_done(c: CleanupView)
    requires
        c.failure is None,
        c.entries <= c.max_entries,
        1 <= c.frames.len() <= c.max_depth + 1,
        c.listed_in_all(),
        c.frames.last().next < c.frames.last().total,
        forall|i: int|
            0 <= i < c.frames.len() - 1 ==> (#[trigger] c.frames[i]).next < c.frames[i].total,
    ensures
        c.entry_done().wf(),
        c.entry_done().max_entries == c.max_entries,
        c.entry_done().max_depth == c.max_depth,
{
    let n = c.frames.len();
    let top = c.frames.last();
    assert(c.frames[n - 1] == top);
    let next = c.with_top(CleanupFrame { total: top.total, next: (top.next + 1) as u64 });
    assert forall|i: int| 0 <= i < next.frames.len() implies (#[trigger] next.frames[i]).next
        <= next.frames[i].total <= next.entries by {
        if i < n - 1 {
            assert(next.frames[i] == c.frames[i]);
        }
    }
    assert forall|i: int| 0 <= i < next.frames.len() - 1 implies (#[trigger] next.frames[i]).next
        < next.frames[i].total by {
        assert(next.frames[i] == c.frames[i]);
    }
    lemma_onward(next);
}

/// The cleanup of one mount.
pub struct Cleanup {
    mount_fd: u32,
    root: Dir,
    max_entries: u64,
    max_depth: usize,
    entries: u64,
    frames: Vec<CleanupFrame>,
    action: CleanupAction,
    failure: Option<FsError>,
}

impl View for Cleanup {
    type V = CleanupView;

    closed spec fn view(&self) -> CleanupView {
        CleanupView {
            max_entries: self.max_entries,
            max_depth: self.max_depth as nat,
            entries: self.entries,
            frames: self.frames@,
            action: self.action,
            failure: match self.failure {
                Some(e) => Some(e@),
                None => None,
            },
        }
    }
}

impl Cleanup {
    /// The mount that is cleaned up.
    pub closed spec fn mount(self) -> u32 {
        self.mount_fd
    }

    /// Its directory.
    pub closed spec fn directory(self) -> Dir {
        self.root
    }

    pub open spec fn wf(self) -> bool {
        self@.wf()
    }

    pub(super) fn begin(mount_fd: u32, root: Dir, max_entries: u64, max_depth: usize) -> (r:
        Cleanup)
        ensures
            r.wf(),
            r.mount() == mount_fd,
            r.directory() == root,
            r@ == CleanupView::begin(max_entries, max_depth as nat),
    {
        let mut frames: Vec<CleanupFrame> = Vec::new();
        frames.push(CleanupFrame { total: 0, next: 0 });
        let r = Cleanup {
            mount_fd,
            root,
            max_entries,
            max_depth,
            entries: 0,
            frames,
            action: CleanupAction::List,
            failure: None,
        };
        assert(r@ =~= CleanupView::begin(max_entries, max_depth as nat));
        r
    }

    /// The descriptor of the mount that is cleaned up.
    pub fn mount_fd(&self) -> (r: u32)
        ensures
            r == self.mount(),
    {
        self.mount_fd
    }

    /// The directory that the cleanup starts in.
    pub fn root(&self) -> (r: &Dir)
        ensures
            *r == self.directory(),
    {
        &self.root
    }

    /// The host operation that is due.
    pub fn action(&self) -> (r: CleanupAction)
        ensures
            r == self@.action,
    {
        self.action
    }

    fn fail(&mut self, error: FsError)
        ensures
            final(self)@ == old(self)@.failed(error@),
            final(self).mount() == old(self).mount(),
            final(self).directory() == old(self).directory(),
    {
        self.action = CleanupAction::Finish;
        self.failure = Some(error);
    }

    fn set_top(&mut self, top: CleanupFrame)
        requires
            old(self)@.frames.len() > 0,
        ensures
            final(self)@ == old(self)@.with_top(top),
            final(self).mount() == old(self).mount(),
            final(self).directory() == old(self).directory(),
    {
        let last = self.frames.len() - 1;
        self.frames.set(last, top);
        assert(self@ =~= old(self)@.with_top(top));
    }

    fn go_on(&mut self)
        requires
            old(self)@.frames.len() > 0,
        ensures
            final(self)@ == old(self)@.onward(),
            final(self).mount() == old(self).mount(),
            final(self).directory() == old(self).directory(),
    {
        let depth = self.frames.len();
        let top = self.frames[depth - 1];
        if top.next < top.total {
            self.action = CleanupAction::Inspect(top.next);
        } else if depth == 1 {
            self.action = CleanupAction::Finish;
        } else {
            self.frames.pop();
            let around = self.frames[depth - 2];
            self.action = CleanupAction::RemoveChild(around.next);
        }
        assert(self@ =~= old(self)@.onward());
    }

    fn finish_entry(&mut self)
        requires
            old(self)@.frames.len() > 0,
            old(self)@.frames.last().next < old(self)@.frames.last().total,
        ensures
            final(self)@ == old(self)@.entry_done(),
            final(self).mount() == old(self).mount(),
            final(self).directory() == old(self).directory(),
    {
        let top = self.frames[self.frames.len() - 1];
        self.set_top(CleanupFrame { total: top.total, next: top.next + 1 });
        self.go_on();
    }

    /// Goes on by what the host reported.
    pub fn advance(&mut self, event: CleanupEvent)
        requires
            old(self).wf(),
        ensures
            final(self).wf(),
            final(self)@ == old(self)@.after(event),
            final(self).mount() == old(self).mount(),
            final(self).directory() == old(self).directory(),
    {
        proof {
            lemma_after(self@, event);
            assert(self@.frames[self@.frames.len() - 1] == self@.frames.last());
        }
        let depth = self.frames.len();
        let top = self.frames[depth - 1];
        match (self.action, event) {
            (CleanupAction::List, CleanupEvent::Entry(Err(e))) => self.fail(FsError::from_io(e)),
            (CleanupAction::List, CleanupEvent::Entry(Ok(_))) => {
                if self.entries >= self.max_entries {
                    self.fail(FsError::Quota);
                } else {
                    self.entries = self.entries + 1;
                    self.set_top(CleanupFrame { total: top.total + 1, next: top.next });
                }
            },
            (CleanupAction::List, CleanupEvent::Listed) => self.go_on(),
            (CleanupAction::Inspect(_), CleanupEvent::Found(Err(e))) => {
                // A concurrent host cleanup may already have removed it.
                if e.kind == IoErrorKind::NotFound {
                    self.finish_entry();
                } else {
                    self.fail(FsError::from_io(e));
                }
            },
            (CleanupAction::Inspect(_), CleanupEvent::Found(Ok(found))) => {
                if !found.is_dir {
                    self.action = CleanupAction::Unlink(top.next);
                } else if depth > self.max_depth {
                    self.fail(FsError::Quota);
                } else {
                    self.action = CleanupAction::Descend(top.next);
                }
            },
            (CleanupAction::Descend(_), CleanupEvent::Entered(Err(e))) => {
                self.fail(FsError::from_io(e))
            },
            (CleanupAction::Descend(_), CleanupEvent::Entered(Ok(_))) => {
                self.frames.push(CleanupFrame { total: 0, next: 0 });
                self.action = CleanupAction::List;
            },
            (CleanupAction::Unlink(_), CleanupEvent::Removed(Err(e))) => {
                self.fail(FsError::from_io(e))
            },
            (CleanupAction::Unlink(_), CleanupEvent::Removed(Ok(_))) => self.finish_entry(),
            (CleanupAction::RemoveChild(_), CleanupEvent::Removed(Err(e))) => {
                self.fail(FsError::from_io(e))
            },
            (CleanupAction::RemoveChild(_), CleanupEvent::Removed(Ok(_))) => self.finish_entry(),
            _ => {},
        }
        assert(self@ =~= old(self)@.after(event));
    }

    /// Whether the cleanup succeeded, once it has ended.
    pub(super) fn result(self) -> (r: Result<(), FsError>)
        ensures
            outcome(r) == match self@.failure {
                Some(e) => Err::<(), _>(e),
                None => Ok(()),
            },
    {
        match self.failure {
            Some(e) => Err(e),
            None => Ok(()),
        }
    }
}

/// Whatever the host fails at ends the cleanup with that failure, except that an
/// entry which is gone already when it is looked up counts as dealt with.
pub proof fn law_cleanup_reports_failures(c: CleanupView, failure: HostError)
    ensures
        ({
            let top = c.frames.last();
            let listed = c.after(CleanupEvent::Entry(Err(failure)));
            let looked = c.after(CleanupEvent::Found(Err(failure)));
            let entered = c.after(CleanupEvent::Entered(Err(failure)));
            let removed = c.after(CleanupEvent::Removed(Err(failure)));
            &&& c.action is List ==> listed.action is Finish && listed.failure == Some(
                failure.classify(),
            )
            &&& c.action is Inspect && !(failure.kind is NotFound) ==> looked.action is Finish
                && looked.failure == Some(failure.classify())
            &&& c.action is Inspect && failure.kind is NotFound ==> {
                &&& looked.failure == c.failure
                &&& looked.entries == c.entries
                &&& top.next + 1 < top.total ==> {
                    &&& looked.action == CleanupAction::Inspect((top.next + 1) as u64)
                    &&& looked.frames == c.frames.drop_last().push(
                        CleanupFrame { total: top.total, next: (top.next + 1) as u64 },
                    )
                }
            }
            &&& c.action is Descend ==> entered.action is Finish && entered.failure == Some(
                failure.classify(),
            )
            &&& c.action is Unlink || c.action is RemoveChild ==> removed.action is Finish
                && removed.failure == Some(failure.classify())
        }),
{
    let top = c.frames.last();
    let more = CleanupFrame { total: top.total, next: (top.next + 1) as u64 };
    assert(c.frames.drop_last().push(more).last() == more);
}

/// A cleanup starts in its root, before anything is listed, and under the
/// limits that it was given.
pub proof fn law_cleanup_starts_at_the_root(max_entries: u64, max_depth: nat)
    ensures
        ({
            let c = CleanupView::begin(max_entries, max_depth);
            &&& c.max_entries == max_entries
            &&& c.max_depth == max_depth
            &&& c.entries == 0
            &&& c.frames.len() == 1
            &&& c.frames[0].total == 0
            &&& c.frames[0].next == 0
            &&& c.action is List
            &&& c.failure is None
        }),
{
}

/// Whether the current entry of a cleanup is dealt with and nothing else
/// changes. The next entry of the directory is due; after the last one, the
/// directory itself in the one around it; and after the last one of the root,
/// nothing.
pub open spec fn dealt_with(before: CleanupView, after: CleanupView) -> bool {
    let n = before.frames.len() as int;
    let top = before.frames[n - 1];
    &&& after.entries == before.entries
    &&& after.failure == before.failure
    &&& if top.next + 1 < top.total {
        &&& after.action == CleanupAction::Inspect((top.next + 1) as u64)
        &&& after.frames == before.frames.update(
            n - 1,
            CleanupFrame { total: top.total, next: (top.next + 1) as u64 },
        )
    } else if n == 1 {
        &&& after.action is Finish
        &&& after.frames.len() == 1
    } else {
        &&& after.action == CleanupAction::RemoveChild(before.frames[n - 2].next)
        &&& after.frames == before.frames.take(n - 1)
    }
}

/// How a cleanup goes on. Listed entries are counted one by one, up to the limit;
/// what is no directory is unlinked; a directory is entered, up to the depth that
/// is allowed, listed from the start, and removed once it is empty. Where a
/// limit is exceeded the cleanup ends with the quota.
pub proof fn law_cleanup_goes_on(cleanup: &mut Cleanup, event: CleanupEvent)
    requires
        old(cleanup).wf(),
        call_ensures(Cleanup::advance, (cleanup, event), ()),
    ensures
        final(cleanup).mount() == old(cleanup).mount(),
        final(cleanup).directory() == old(cleanup).directory(),
        final(cleanup)@.max_entries == old(cleanup)@.max_entries,
        final(cleanup)@.max_depth == old(cleanup)@.max_depth,
        ({
            let before = old(cleanup)@;
            let after = final(cleanup)@;
            let n = before.frames.len() as int;
            let top = before.frames[n - 1];
            let over_quota = after.action is Finish && after.failure == Some(FsErrorView::Quota);
            &&& before.action is List && (event matches CleanupEvent::Entry(Ok(_)))
                ==> if before.entries < before.max_entries {
                &&& after.entries == before.entries + 1
                &&& after.frames == before.frames.update(
                    n - 1,
                    CleanupFrame { total: (top.total + 1) as u64, next: top.next },
                )
                &&& after.action is List
                &&& after.failure == before.failure
            } else {
                over_quota
            }
            &&& before.action is List && event is Listed ==> {
                &&& after.entries == before.entries
                &&& after.failure == before.failure
                &&& if top.total > 0 {
                    after.action == CleanupAction::Inspect(0) && after.frames == before.frames
                } else if n == 1 {
                    after.action is Finish && after.frames == before.frames
                } else {
                    after.action == CleanupAction::RemoveChild(before.frames[n - 2].next)
                        && after.frames == before.frames.take(n - 1)
                }
            }
            &&& before.action is Inspect && (event matches CleanupEvent::Found(Ok(found))
                && !found.is_dir) ==> after == CleanupView {
                action: CleanupAction::Unlink(top.next),
                ..before
            }
            &&& before.action is Inspect && (event matches CleanupEvent::Found(Ok(found))
                && found.is_dir) ==> if n <= before.max_depth {
                after == CleanupView { action: CleanupAction::Descend(top.next), ..before }
            } else {
                over_quota
            }
            &&& before.action is Descend && (event matches CleanupEvent::Entered(Ok(_))) ==> {
                &&& after.action is List
                &&& after.frames == before.frames.push(CleanupFrame { total: 0, next: 0 })
                &&& after.entries == before.entries
                &&& after.failure == before.failure
            }
            &&& before.action is Inspect && (event matches CleanupEvent::Found(Err(e))
                && e.kind is NotFound) ==> dealt_with(before, after)
            &&& (before.action is Unlink || before.action is RemoveChild) && (
            event matches CleanupEvent::Removed(Ok(_))) ==> dealt_with(before, after)
        }),
{
    let before = old(cleanup)@;
    let n = before.frames.len() as int;
    let top = before.frames[n - 1];
    let more = CleanupFrame { total: top.total, next: (top.next + 1) as u64 };
    let listed = CleanupFrame { total: (top.total + 1) as u64, next: top.next };
    assert(before.frames.drop_last().push(more) =~= before.frames.update(n - 1, more));
    assert(before.frames.drop_last().push(listed) =~= before.frames.update(n - 1, listed));
    assert(before.frames.update(n - 1, more).drop_last() =~= before.frames.take(n - 1));
    assert(before.frames.drop_last() =~= before.frames.take(n - 1));
    if n > 1 {
        assert(before.frames.take(n - 1).last() == before.frames[n - 2]);
    }
}

/// A cleanup tells what is due, and on which mount.
pub proof fn law_cleanups_tell_what_is_due(
    cleanup: Cleanup,
    fd: u32,
    root: &Dir,
    action: CleanupAction,
)
    requires
        call_ensures(Cleanup::mount_fd, (&cleanup,), fd),
        call_ensures(Cleanup::root, (&cleanup,), root),
        call_ensures(Cleanup::action, (&cleanup,), action),
    ensures
        fd == cleanup.mount(),
        *root == cleanup.directory(),
        action == cleanup@.action,
{
}

} // verus!
