//! Lookups and bookkeeping that the operations share.
use vstd::prelude::*;

use super::{CapFs, ResolvedGuestPath};
use crate::error::{outcome, FsError};
use crate::guest_path::{law_accepted_paths_are_safe, GuestRelativePath};
use crate::handles::{handles_exhausted, FIRST_PREOPEN_FD};
use crate::limits::checked_charge;
use crate::model::{lemma_budget_and_limits, lemma_compacted, lemma_handle_taken, lemma_without};
use crate::perms::{DescriptorType, Dir, DirPerms};
use crate::table::{follows_all, keys_of, lemma_first_above, lists, remove_all};

verus! {

broadcast use vstd::std_specs::btree::group_btree_axioms;

impl CapFs {
    pub(super) fn charge_read_bytes(&mut self, amount: u64) -> (r: Result<(), FsError>)
        requires
            old(self).wf(),
        ensures
            final(self).wf(),
            match old(self)@.reads_charged(amount) {
                Some(after) => r is Ok && final(self)@ == after,
                None => outcome(r) == Err::<(), _>(FsError::<Seq<char>>::Quota) && final(self)@
                    == old(self)@,
            },
    {
        let maximum = self.limits.max_read_bytes_per_run;
        let r = checked_charge(&mut self.run_budget.bytes_read, amount, maximum);
        proof {
            lemma_budget_and_limits(old(self)@, self.run_budget, self.limits);
            assert(self@ =~= old(self)@.with_budget(self.run_budget));
        }
        r
    }

    pub(super) fn charge_written_bytes(&mut self, amount: u64) -> (r: Result<(), FsError>)
        requires
            old(self).wf(),
        ensures
            final(self).wf(),
            match old(self)@.writes_charged(amount) {
                Some(after) => r is Ok && final(self)@ == after,
                None => outcome(r) == Err::<(), _>(FsError::<Seq<char>>::Quota) && final(self)@
                    == old(self)@,
            },
    {
        let maximum = self.limits.max_written_bytes_per_run;
        let r = checked_charge(&mut self.run_budget.bytes_written, amount, maximum);
        proof {
            lemma_budget_and_limits(old(self)@, self.run_budget, self.limits);
            assert(self@ =~= old(self)@.with_budget(self.run_budget));
        }
        r
    }

    pub(super) fn charge_creation(&mut self) -> (r: Result<(), FsError>)
        requires
            old(self).wf(),
        ensures
            final(self).wf(),
            match old(self)@.creation_charged() {
                Some(after) => r is Ok && final(self)@ == after,
                None => outcome(r) == Err::<(), _>(FsError::<Seq<char>>::Quota) && final(self)@
                    == old(self)@,
            },
    {
        let maximum = self.limits.max_creations_per_run;
        let r = checked_charge(&mut self.run_budget.creations, 1, maximum);
        proof {
            lemma_budget_and_limits(old(self)@, self.run_budget, self.limits);
            assert(self@ =~= old(self)@.with_budget(self.run_budget));
        }
        r
    }

    pub(super) fn charge_directory_entries(&mut self, amount: u64) -> (r: Result<(), FsError>)
        requires
            old(self).wf(),
        ensures
            final(self).wf(),
            match old(self)@.entries_charged(amount) {
                Some(after) => r is Ok && final(self)@ == after,
                None => outcome(r) == Err::<(), _>(FsError::<Seq<char>>::Quota) && final(self)@
                    == old(self)@,
            },
    {
        let maximum = self.limits.max_directory_entries_per_run;
        let r = checked_charge(&mut self.run_budget.directory_entries, amount, maximum);
        proof {
            lemma_budget_and_limits(old(self)@, self.run_budget, self.limits);
            assert(self@ =~= old(self)@.with_budget(self.run_budget));
        }
        r
    }

    pub(super) fn ensure_descriptor_capacity(&self) -> (r: Result<(), FsError>)
        ensures
            if self@.has_descriptor_room() {
                r is Ok
            } else {
                outcome(r) == Err::<(), _>(FsError::<Seq<char>>::Quota)
            },
    {
        assert(self@.descriptors.dom() =~= self.descriptors@.dom());
        if self.descriptors.len() >= self.limits.max_open_descriptors {
            return Err(FsError::Quota);
        }
        Ok(())
    }

    pub(super) fn ensure_stream_capacity(&self) -> (r: Result<(), FsError>)
        ensures
            if self@.has_stream_room() {
                r is Ok
            } else {
                outcome(r) == Err::<(), _>(FsError::<Seq<char>>::Quota)
            },
    {
        assert(self@.dir_streams.dom() =~= self.dir_streams@.dom());
        match self.streams.len().checked_add(self.dir_streams.len()) {
            Some(live_streams) => {
                if live_streams >= self.limits.max_open_streams {
                    return Err(FsError::Quota);
                }
                Ok(())
            },
            None => Err(FsError::Quota),
        }
    }

    pub(super) fn alloc_handle(&mut self) -> (r: Result<u32, FsError>)
        requires
            old(self).wf(),
        ensures
            final(self).wf(),
            if old(self)@.has_handle() {
                r == Ok::<u32, FsError>(old(self)@.next_handle) && final(self)@
                    == old(self)@.handle_taken()
            } else {
                outcome(r) == Err::<u32, _>(handles_exhausted()) && final(self)@ == old(self)@
            },
    {
        let r = self.handles.alloc_handle();
        proof {
            if old(self)@.has_handle() {
                lemma_handle_taken(old(self)@);
                assert(self@ =~= old(self)@.handle_taken());
            } else {
                assert(self@ =~= old(self)@);
            }
        }
        r
    }

    /// The capability of an open directory.
    pub fn get_dir(&self, fd: u32) -> (r: Option<&Dir>)
        ensures
            match self@.dir_of(fd) {
                Some(dir) => r == Some(&dir),
                None => r is None,
            },
    {
        match self.descriptors.get(&fd) {
            Some(entry) => match &entry.directory {
                Some(dir) => Some(dir),
                None => None,
            },
            None => None,
        }
    }

    /// The capability of an open directory that may be changed.
    pub(super) fn mutating_dir(&self, fd: u32) -> (r: Result<Dir, FsError>)
        ensures
            match self@.dir_of(fd) {
                Some(dir) => if dir.grants().mutates() {
                    r == Ok::<Dir, FsError>(dir)
                } else {
                    outcome(r) == Err::<Dir, _>(FsError::<Seq<char>>::NotPermitted)
                },
                None => outcome(r) == Err::<Dir, _>(FsError::<Seq<char>>::BadDescriptor),
            },
    {
        match self.get_dir(fd) {
            Some(dir) => {
                if !dir.perms().contains(DirPerms::MUTATE) {
                    return Err(FsError::NotPermitted);
                }
                Ok(dir.clone())
            },
            None => Err(FsError::BadDescriptor),
        }
    }

    /// The capability of a mounted directory.
    pub(super) fn root_dir(&self, root_fd: u32) -> (r: Option<&Dir>)
        ensures
            if self@.preopens.contains_key(root_fd) {
                r == Some(&self@.preopens[root_fd].dir)
            } else {
                r is None
            },
    {
        match self.preopen_dirs.get(&root_fd) {
            Some(entry) => Some(&entry.dir),
            None => None,
        }
    }

    /// Resolve a validated nested path relative to an opened directory while
    /// retaining the descriptor's preopen-relative identity.
    pub(super) fn resolve_at(&self, dir_fd: u32, path: &str) -> (r: Result<
        ResolvedGuestPath,
        FsError,
    >)
        requires
            self.wf(),
        ensures
            match self@.resolved(dir_fd, path@) {
                Ok(view) => r matches Ok(p) && p.wf() && p.model() == view,
                Err(error) => r matches Err(e) && e@ == error,
            },
    {
        let dir_relative = match GuestRelativePath::parse(path) {
            Ok(p) => p,
            Err(e) => return Err(e),
        };
        proof {
            law_accepted_paths_are_safe(path@);
        }
        let parent = match self.descriptors.get(&dir_fd) {
            Some(entry) => entry,
            None => return Err(FsError::BadDescriptor),
        };
        assert(self@.descriptors[dir_fd] == parent.model());
        if parent.descriptor_type != DescriptorType::Directory || parent.directory.is_none() {
            assert(self@.descriptor_ok(dir_fd));
            return Err(FsError::BadDescriptor);
        }
        match parent.relative_path.join(&dir_relative) {
            Ok(root_relative) => Ok(
                ResolvedGuestPath { root_fd: parent.root_fd, dir_relative, root_relative },
            ),
            Err(e) => Err(e),
        }
    }

    /// The mount and the path below it of an open file.
    pub(super) fn file_parts(&self, fd: u32) -> (r: Result<(&Dir, &GuestRelativePath), FsError>)
        requires
            self.wf(),
        ensures
            if self@.is_file(fd) {
                r matches Ok((root, path)) && *root == self@.root_of(fd) && path.wf() && path@
                    == self@.descriptors[fd].path
            } else {
                r matches Err(e) && e@ == FsError::<Seq<char>>::BadDescriptor
            },
    {
        match self.descriptors.get(&fd) {
            Some(entry) => {
                assert(self@.descriptors[fd] == entry.model());
                assert(self@.descriptor_ok(fd));
                if entry.descriptor_type != DescriptorType::RegularFile {
                    return Err(FsError::BadDescriptor);
                }
                match self.root_dir(entry.root_fd) {
                    Some(root) => Ok((root, &entry.relative_path)),
                    None => Err(FsError::BadDescriptor),
                }
            },
            None => Err(FsError::BadDescriptor),
        }
    }

    /// The opened descriptors at `path` of a mount and below it.
    pub(super) fn descriptors_in_subtree(&self, root_fd: u32, path: &GuestRelativePath) -> (r: Vec<
        u32,
    >)
        ensures
            r@.to_set() == self@.subtree(root_fd, path@),
    {
        let fds = keys_of(&self.descriptors);
        let mut r: Vec<u32> = Vec::new();
        let mut i: usize = 0;
        while i < fds.len()
            invariant
                0 <= i <= fds@.len(),
                forall|j: int|
                    0 <= j < fds@.len() ==> self.descriptors@.contains_key(#[trigger] fds@[j]),
                forall|k: u32| #[trigger] r@.contains(k) <==> (fds@.take(i as int).contains(k) && self@.subtree(
                    root_fd,
                    path@,
                ).contains(k)),
            decreases fds@.len() - i,
        {
            let fd = fds[i];
            let ghost before = r@;
            if let Some(entry) = self.descriptors.get(&fd) {
                assert(self@.descriptors[fd] == entry.model());
                if !entry.is_preopen && entry.root_fd == root_fd && entry.relative_path.is_within(
                    path,
                ) {
                    r.push(fd);
                }
            }
            proof {
                lemma_filter_step(fds@, i as int, before, r@, self@.subtree(root_fd, path@));
            }
            i += 1;
        }
        proof {
            assert(fds@.take(i as int) =~= fds@);
            assert(r@.to_set() =~= self@.subtree(root_fd, path@));
        }
        r
    }

    /// The opened descriptors below a mount.
    pub(super) fn descriptors_below(&self, mount_fd: u32) -> (r: Vec<u32>)
        ensures
            r@.to_set() == self@.opened_below(mount_fd),
    {
        let fds = keys_of(&self.descriptors);
        let mut r: Vec<u32> = Vec::new();
        let mut i: usize = 0;
        while i < fds.len()
            invariant
                0 <= i <= fds@.len(),
                forall|j: int|
                    0 <= j < fds@.len() ==> self.descriptors@.contains_key(#[trigger] fds@[j]),
                forall|k: u32| #[trigger] r@.contains(k) <==> (fds@.take(i as int).contains(k)
                    && self@.opened_below(mount_fd).contains(k)),
            decreases fds@.len() - i,
        {
            let fd = fds[i];
            let ghost before = r@;
            if let Some(entry) = self.descriptors.get(&fd) {
                assert(self@.descriptors[fd] == entry.model());
                if !entry.is_preopen && entry.root_fd == mount_fd {
                    r.push(fd);
                }
            }
            proof {
                lemma_filter_step(fds@, i as int, before, r@, self@.opened_below(mount_fd));
            }
            i += 1;
        }
        proof {
            assert(fds@.take(i as int) =~= fds@);
            assert(r@.to_set() =~= self@.opened_below(mount_fd));
        }
        r
    }

    /// The file streams that belong to one of `fds`.
    fn streams_on(&self, fds: &Vec<u32>) -> (r: Vec<u32>)
        ensures
            r@.to_set() == self@.streams_on(fds@.to_set()),
    {
        let ids = keys_of(&self.streams);
        let ghost wanted = self@.streams_on(fds@.to_set());
        let mut r: Vec<u32> = Vec::new();
        let mut i: usize = 0;
        while i < ids.len()
            invariant
                0 <= i <= ids@.len(),
                wanted == self@.streams_on(fds@.to_set()),
                forall|j: int|
                    0 <= j < ids@.len() ==> self.streams@.contains_key(#[trigger] ids@[j]),
                forall|k: u32| #[trigger] r@.contains(k) <==> (ids@.take(i as int).contains(k)
                    && wanted.contains(k)),
            decreases ids@.len() - i,
        {
            let id = ids[i];
            let ghost before = r@;
            if let Some(stream) = self.streams.get(&id) {
                if lists(fds, stream.file_fd) {
                    r.push(id);
                }
            }
            proof {
                lemma_filter_step(ids@, i as int, before, r@, wanted);
            }
            i += 1;
        }
        proof {
            assert(ids@.take(i as int) =~= ids@);
            assert(r@.to_set() =~= wanted);
        }
        r
    }

    /// The directory streams that belong to one of `fds`.
    fn dir_streams_on(&self, fds: &Vec<u32>) -> (r: Vec<u32>)
        ensures
            r@.to_set() == self@.dir_streams_on(fds@.to_set()),
    {
        let ids = keys_of(&self.dir_streams);
        let ghost wanted = self@.dir_streams_on(fds@.to_set());
        let mut r: Vec<u32> = Vec::new();
        let mut i: usize = 0;
        while i < ids.len()
            invariant
                0 <= i <= ids@.len(),
                wanted == self@.dir_streams_on(fds@.to_set()),
                forall|j: int|
                    0 <= j < ids@.len() ==> self.dir_streams@.contains_key(#[trigger] ids@[j]),
                forall|k: u32| #[trigger] r@.contains(k) <==> (ids@.take(i as int).contains(k)
                    && wanted.contains(k)),
            decreases ids@.len() - i,
        {
            let id = ids[i];
            let ghost before = r@;
            if let Some(stream) = self.dir_streams.get(&id) {
                assert(self@.dir_streams[id] == stream.model());
                if lists(fds, stream.dir_fd) {
                    r.push(id);
                }
            }
            proof {
                lemma_filter_step(ids@, i as int, before, r@, wanted);
            }
            i += 1;
        }
        proof {
            assert(ids@.take(i as int) =~= ids@);
            assert(r@.to_set() =~= wanted);
        }
        r
    }

    /// Drops descriptors together with the streams that belong to them.
    pub(super) fn invalidate_descriptors(&mut self, fds: &Vec<u32>)
        requires
            old(self).wf(),
            forall|fd: u32| #[trigger]
                fds@.contains(fd) ==> !old(self)@.preopens.contains_key(fd),
        ensures
            final(self).wf(),
            final(self)@ == old(self)@.without(fds@.to_set()),
    {
        let file_streams = self.streams_on(fds);
        let directory_streams = self.dir_streams_on(fds);
        remove_all(&mut self.descriptors, fds);
        remove_all(&mut self.streams, &file_streams);
        remove_all(&mut self.dir_streams, &directory_streams);
        proof {
            assert(self@ =~= old(self)@.without(fds@.to_set()));
            lemma_without(old(self)@, fds@.to_set());
        }
    }

    /// Lets handle numbers continue right above the live ones.
    pub(super) fn recalculate_next_handle(&mut self)
        requires
            old(self).wf(),
        ensures
            final(self).wf(),
            final(self)@ == old(self)@.handles_compacted(),
    {
        let a = keys_of(&self.descriptors);
        let b = keys_of(&self.streams);
        let c = keys_of(&self.dir_streams);
        let ghost live = self@.live();
        let mut next = FIRST_PREOPEN_FD;
        if a.len() > 0 {
            assert(self@.descriptors.contains_key(a@.last()));
            assert(self@.descriptor_ok(a@.last()));
            let last = a[a.len() - 1];
            next = last + 1;
        }
        if b.len() > 0 {
            assert(self@.streams.contains_key(b@.last()));
            assert(self@.stream_ok(b@.last()));
            let last = b[b.len() - 1];
            if last >= next {
                next = last + 1;
            }
        }
        if c.len() > 0 {
            assert(self@.dir_streams.contains_key(c@.last()));
            assert(self@.dir_stream_ok(c@.last()));
            let last = c[c.len() - 1];
            if last >= next {
                next = last + 1;
            }
        }
        proof {
            lemma_last_is_greatest(a@);
            lemma_last_is_greatest(b@);
            lemma_last_is_greatest(c@);
            assert forall|h: u32| #[trigger] live.contains(h) implies h < next by {
                if self@.descriptors.contains_key(h) {
                    assert(a@.contains(h));
                } else if self@.streams.contains_key(h) {
                    assert(b@.contains(h));
                } else {
                    assert(self.dir_streams@.contains_key(h));
                    assert(c@.contains(h));
                }
            }
            if a@.len() == 0 && b@.len() == 0 && c@.len() == 0 {
                assert forall|h: u32| !live.contains(h) by {
                    if self.descriptors@.contains_key(h) {
                        assert(a@.contains(h));
                    }
                    if self.streams@.contains_key(h) {
                        assert(b@.contains(h));
                    }
                    if self.dir_streams@.contains_key(h) {
                        assert(c@.contains(h));
                    }
                }
            } else {
                assert(live.contains((next - 1) as u32));
            }
            assert(follows_all(live, FIRST_PREOPEN_FD, next));
            lemma_first_above(live, FIRST_PREOPEN_FD, next);
            lemma_compacted(self@);
        }
        self.handles.next_handle = next;
        assert(self@ =~= old(self)@.handles_compacted());
    }
}

/// One step of picking the wanted elements of a list in order.
pub(super) proof fn lemma_filter_step(all: Seq<u32>, i: int, before: Seq<u32>, after: Seq<u32>, wanted: Set<u32>)
    requires
        0 <= i < all.len(),
        forall|k: u32| #[trigger] before.contains(k) <==> (all.take(i).contains(k) && wanted.contains(k)),
        after == if wanted.contains(all[i]) {
            before.push(all[i])
        } else {
            before
        },
    ensures
        forall|k: u32| #[trigger] after.contains(k) <==> (all.take(i + 1).contains(k) && wanted.contains(k)),
{
    assert(all.take(i + 1) =~= all.take(i).push(all[i]));
    assert forall|k: u32| #[trigger] after.contains(k) <==> (all.take(i + 1).contains(k) && wanted.contains(
        k,
    )) by {
        let longer = all.take(i + 1);
        assert(longer[i] == all[i]);
        if all.take(i).contains(k) {
            let j = choose|j: int| 0 <= j < i && all.take(i)[j] == k;
            assert(longer[j] == k);
        }
        if wanted.contains(all[i]) {
            assert(after[before.len() as int] == all[i]);
            if before.contains(k) {
                let j = choose|j: int| 0 <= j < before.len() && before[j] == k;
                assert(after[j] == k);
            }
            if after.contains(k) && k != all[i] {
                let j = choose|j: int| 0 <= j < after.len() && after[j] == k;
                assert(before[j] == k);
            }
        }
        if longer.contains(k) && k != all[i] {
            let j = choose|j: int| 0 <= j < longer.len() && longer[j] == k;
            assert(all.take(i)[j] == k);
        }
    }
}

/// The last element of an ascending list is its greatest.
proof fn lemma_last_is_greatest(s: Seq<u32>)
    requires
        forall|i: int, j: int| 0 <= i < j < s.len() ==> s[i] < s[j],
    ensures
        forall|k: u32| #[trigger] s.contains(k) ==> k <= s.last(),
{
    assert forall|k: u32| #[trigger] s.contains(k) implies k <= s.last() by {
        let i = choose|i: int| 0 <= i < s.len() && s[i] == k;
        if i < s.len() - 1 {
            assert(s[i] < s[s.len() - 1]);
        }
    }
}

} // verus!
