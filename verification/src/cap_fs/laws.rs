//! What holds of the filesystem as a whole.
use vstd::prelude::*;

use super::files::ReadView;
use super::namespace::ChangeView;
use super::open::OpenView;
use crate::error::{mount_point, FsErrorView, HostError, MountError};
use crate::guest_path::{law_accepted_paths_are_safe, law_join_stays_below, lies_within};
use crate::guest_path::{parsed, safe_component};
use crate::handles::FIRST_PREOPEN_FD;
use crate::limits::{FilesystemLimits, RunBudget};
use crate::model::{roots_overlap, FsView, PreopenView};
use crate::perms::{DescriptorFlags, HostMetadata, OpenFlags, PathFlags};
use crate::table::follows_all;
use crate::text::split_once;
use cap_std::fs::Dir as CapDir;

verus! {

/// Whatever a guest asks for, what is handed to the host is a safe path below
/// a directory that the guest holds a descriptor of; and seen from the mount,
/// it lies within that directory.
pub proof fn law_resolved_paths_stay_inside(fs: FsView, dir_fd: u32, path: Seq<char>)
    requires
        fs.wf(),
    ensures
        fs.resolved(dir_fd, path) matches Ok(at) ==> {
            &&& at.dir_relative.safe()
            &&& at.dir_relative.components.len() > 0
            &&& fs.is_directory(dir_fd)
            &&& at.root_fd == fs.descriptors[dir_fd].root_fd
            &&& lies_within(at.root_relative, fs.descriptors[dir_fd].path)
            &&& at.root_relative.safe()
        },
{
    law_accepted_paths_are_safe(path);
    if let Ok(at) = fs.resolved(dir_fd, path) {
        let parent = fs.descriptors[dir_fd];
        assert(fs.descriptor_ok(dir_fd));
        law_join_stays_below(parent.path, at.dir_relative);
        let both = parent.path.components + at.dir_relative.components;
        assert forall|i: int| 0 <= i < both.len() implies #[trigger] safe_component(both[i]) by {
            if i < parent.path.components.len() {
                assert(safe_component(parent.path.components[i]));
            } else {
                assert(safe_component(at.dir_relative.components[i - parent.path.components.len()]));
            }
        }
    }
}

/// Creating, truncating, removing and renaming need a directory that may be
/// changed; asking for metadata needs one that may be read.
pub proof fn law_changes_need_the_permission(
    fs: FsView,
    dir_fd: u32,
    path: Seq<char>,
    path_flags: PathFlags,
    flags: OpenFlags,
)
    ensures
        fs.open_request(dir_fd, path, path_flags, flags) is Ok && (flags.creates()
            || flags.truncates()) ==> fs.descriptors[dir_fd].directory->0.grants().mutates(),
        fs.change_request(dir_fd, path) is Ok
            ==> fs.descriptors[dir_fd].directory->0.grants().mutates(),
        fs.stat_request(dir_fd, path, path_flags) is Ok
            ==> fs.descriptors[dir_fd].directory->0.grants().reads(),
        fs.list_request(dir_fd) is Ok ==> fs.dir_of(dir_fd)->0.grants().reads(),
{
}

/// What is opened below a mount never grants more than the mount: where the
/// mount may not be changed and its files may not be written, no descriptor
/// that belongs to it, however deep, lets a guest create, truncate, remove,
/// rename or write anything, or open a stream that writes.
pub proof fn law_read_only_mounts_stay_unchanged(
    fs: FsView,
    root_fd: u32,
    fd: u32,
    path: Seq<char>,
    path_flags: PathFlags,
    flags: OpenFlags,
    offset: u64,
    len: u64,
)
    requires
        fs.wf(),
        fs.preopens.contains_key(root_fd),
        !fs.preopens[root_fd].dir.grants().mutates(),
        !fs.preopens[root_fd].dir.file_grants().writes(),
        fs.descriptors.contains_key(fd),
        fs.descriptors[fd].root_fd == root_fd,
    ensures
        flags.creates() || flags.truncates() ==> fs.open_request(
            fd,
            path,
            path_flags,
            flags,
        ) is Err,
        fs.change_request(fd, path) is Err,
        fs.write_request(fd, offset, len).1 is Err,
        fs.write_request(fd, offset, len).0 == fs,
        fs.open_stream(fd, offset, true).1 is Err,
{
    assert(fs.descriptor_ok(fd));
}

/// An opened directory grants exactly what its mount grants, however deep it
/// lies; so does an opened file.
pub proof fn law_permissions_are_inherited(fs: FsView, fd: u32)
    requires
        fs.wf(),
        fs.descriptors.contains_key(fd),
    ensures
        ({
            let root_fd = fs.descriptors[fd].root_fd;
            let mount = fs.preopens[root_fd].dir;
            &&& fs.preopens.contains_key(root_fd)
            &&& fs.is_directory(fd) || fs.is_file(fd)
            &&& fs.is_directory(fd) ==> fs.flags_of(fd) == fs.flags_of(root_fd)
            &&& fs.is_file(fd) ==> fs.flags_of(fd) == Some(
                DescriptorFlags {
                    read: mount.file_grants().reads(),
                    write: mount.file_grants().writes(),
                    mutate_directory: false,
                },
            )
        }),
{
    assert(fs.descriptor_ok(fd));
    let root_fd = fs.descriptors[fd].root_fd;
    assert(fs.preopens.contains_key(root_fd));
    assert(fs.descriptors.contains_key(root_fd));
    assert(fs.descriptor_ok(root_fd));
}

/// A descriptor that was opened belongs to the mount of the directory that it
/// was opened through; its path is the path of that directory and what the
/// guest asked for; its handle was not in use; and nothing else changes.
pub proof fn law_opened_descriptors_lie_below(
    fs: FsView,
    dir_fd: u32,
    path: Seq<char>,
    path_flags: PathFlags,
    flags: OpenFlags,
    opened: Option<CapDir>,
)
    requires
        fs.wf(),
        fs.open_request(dir_fd, path, path_flags, flags) is Ok,
        fs.has_handle(),
    ensures
        ({
            let op = fs.open_request(dir_fd, path, path_flags, flags)->Ok_0;
            let (after, result) = fs.open_finish(op, opened);
            let parent = fs.descriptors[dir_fd];
            let fd = fs.next_handle;
            &&& result == Ok::<u32, FsErrorView>(fd)
            &&& !fs.live().contains(fd)
            &&& after.descriptors[fd].root_fd == parent.root_fd
            &&& after.descriptors[fd].parent_fd == Some(dir_fd)
            &&& after.descriptors[fd].path.components == parent.path.components + parsed(
                path,
            )->0.components
            &&& lies_within(after.descriptors[fd].path, parent.path)
            &&& forall|other: u32|
                other != fd ==> (after.descriptors.contains_key(other)
                    <==> fs.descriptors.contains_key(other))
            &&& forall|other: u32| #[trigger]
                fs.descriptors.contains_key(other) ==> after.descriptors[other]
                    == fs.descriptors[other]
        }),
{
    let parent = fs.descriptors[dir_fd];
    law_resolved_paths_stay_inside(fs, dir_fd, path);
    assert(fs.descriptor_ok(dir_fd));
    assert(fs.preopens.contains_key(parent.root_fd));
    assert(fs.descriptors.contains_key(parent.root_fd));
    assert(fs.descriptor_ok(parent.root_fd));
    crate::model::lemma_handle_taken(fs);
}

/// A mounted directory cannot be closed, and nothing that a guest does, nor
/// the cleanup before a run, takes it away.
pub proof fn law_mounts_persist(fs: FsView, fd: u32, op: ChangeView, other: ChangeView, mount: u32)
    requires
        fs.wf(),
        fs.preopens.contains_key(fd),
    ensures
        fs.close(fd) == Err::<FsView, _>(FsErrorView::NotPermitted),
        fs.name_gone(op).preopens == fs.preopens,
        fs.name_gone(op).descriptors.contains_key(fd),
        fs.name_moved(op, other).preopens == fs.preopens,
        fs.name_moved(op, other).descriptors.contains_key(fd),
        fs.mount_cleared(mount).preopens == fs.preopens,
        fs.mount_cleared(mount).descriptors.contains_key(fd),
        fs.mount_cleared(mount).descriptors[fd] == fs.descriptors[fd],
{
    assert(fs.descriptor_ok(fd));
}

/// Closing a descriptor takes away that descriptor and the streams on it, and
/// nothing else: what was opened through it stays valid. It can be closed only
/// once.
pub proof fn law_closing_takes_only_its_own(fs: FsView, fd: u32)
    requires
        fs.close(fd) is Ok,
    ensures
        ({
            let after = fs.close(fd)->Ok_0;
            &&& !after.descriptors.contains_key(fd)
            &&& after.close(fd) == Err::<FsView, _>(FsErrorView::BadDescriptor)
            &&& forall|other: u32| #[trigger]
                fs.descriptors.contains_key(other) && other != fd
                    ==> after.descriptors.contains_key(other) && after.descriptors[other]
                    == fs.descriptors[other]
            &&& forall|id: u32| #[trigger]
                fs.streams.contains_key(id) ==> (after.streams.contains_key(id)
                    <==> fs.streams[id].file_fd != fd)
            &&& forall|id: u32| #[trigger]
                fs.dir_streams.contains_key(id) ==> (after.dir_streams.contains_key(id)
                    <==> fs.dir_streams[id].dir_fd != fd)
        }),
{
    let after = fs.close(fd)->Ok_0;
    assert forall|id: u32| #[trigger] fs.streams.contains_key(id) implies (
    after.streams.contains_key(id) <==> fs.streams[id].file_fd != fd) by {
        assert(fs.streams_on(set![fd]).contains(id) <==> fs.streams[id].file_fd == fd);
    }
    assert forall|id: u32| #[trigger] fs.dir_streams.contains_key(id) implies (
    after.dir_streams.contains_key(id) <==> fs.dir_streams[id].dir_fd != fd) by {
        assert(fs.dir_streams_on(set![fd]).contains(id) <==> fs.dir_streams[id].dir_fd == fd);
    }
}

/// Removing a name invalidates exactly what was opened at that path of the
/// mount and below it, and the streams on it. Everything else stays as it is.
pub proof fn law_removal_invalidates_the_subtree(fs: FsView, op: ChangeView)
    requires
        fs.wf(),
    ensures
        ({
            let after = fs.name_gone(op);
            &&& forall|fd: u32| #[trigger]
                fs.descriptors.contains_key(fd) ==> (after.descriptors.contains_key(fd) <==> {
                    ||| fs.descriptors[fd].is_preopen
                    ||| fs.descriptors[fd].root_fd != op.root_fd
                    ||| !lies_within(fs.descriptors[fd].path, op.root_path)
                })
            &&& forall|fd: u32| #[trigger]
                after.descriptors.contains_key(fd) ==> fs.descriptors.contains_key(fd)
                    && after.descriptors[fd] == fs.descriptors[fd]
            &&& forall|id: u32| #[trigger]
                fs.streams.contains_key(id) ==> (after.streams.contains_key(id)
                    <==> after.descriptors.contains_key(fs.streams[id].file_fd))
            &&& forall|id: u32| #[trigger]
                fs.dir_streams.contains_key(id) ==> (after.dir_streams.contains_key(id)
                    <==> after.descriptors.contains_key(fs.dir_streams[id].dir_fd))
            &&& after.budget == fs.budget
            &&& after.next_handle == fs.next_handle
        }),
{
    let after = fs.name_gone(op);
    let gone = fs.subtree(op.root_fd, op.root_path);
    assert forall|id: u32| #[trigger] fs.streams.contains_key(id) implies (
    after.streams.contains_key(id) <==> after.descriptors.contains_key(
        fs.streams[id].file_fd,
    )) by {
        assert(fs.stream_ok(id));
        assert(fs.streams_on(gone).contains(id) <==> gone.contains(fs.streams[id].file_fd));
    }
    assert forall|id: u32| #[trigger] fs.dir_streams.contains_key(id) implies (
    after.dir_streams.contains_key(id) <==> after.descriptors.contains_key(
        fs.dir_streams[id].dir_fd,
    )) by {
        assert(fs.dir_stream_ok(id));
        assert(fs.dir_streams_on(gone).contains(id) <==> gone.contains(fs.dir_streams[id].dir_fd));
    }
}

/// A rename invalidates exactly what was opened at the old path or at the new
/// one, or below either; a rename of a path to itself invalidates nothing.
pub proof fn law_rename_invalidates_both_ends(
    fs: FsView,
    source: ChangeView,
    destination: ChangeView,
    fd: u32,
)
    requires
        fs.descriptors.contains_key(fd),
    ensures
        fs.name_moved(source, source) == fs,
        source.root_path.components != destination.root_path.components ==> (fs.name_moved(
            source,
            destination,
        ).descriptors.contains_key(fd) <==> fs.name_gone(source).descriptors.contains_key(fd)
            && fs.name_gone(destination).descriptors.contains_key(fd)),
        fs.name_moved(source, destination).descriptors.contains_key(fd) ==> fs.name_moved(
            source,
            destination,
        ).descriptors[fd] == fs.descriptors[fd],
{
}

/// A rename never leaves its mount.
pub proof fn law_renames_do_not_cross_mounts(
    fs: FsView,
    old_dir_fd: u32,
    old_path: Seq<char>,
    new_dir_fd: u32,
    new_path: Seq<char>,
)
    ensures
        fs.rename_request(old_dir_fd, old_path, new_dir_fd, new_path) matches Ok((a, b))
            ==> a.root_fd == b.root_fd && a.root_fd == fs.descriptors[old_dir_fd].root_fd
            && b.root_fd == fs.descriptors[new_dir_fd].root_fd,
        fs.change_request(old_dir_fd, old_path) is Ok && fs.change_request(new_dir_fd, new_path) is Ok
            && fs.descriptors[old_dir_fd].root_fd != fs.descriptors[new_dir_fd].root_fd
            ==> fs.rename_request(old_dir_fd, old_path, new_dir_fd, new_path) == Err::<
            (ChangeView, ChangeView),
            _,
        >(FsErrorView::CrossDevice),
{
}

/// Clearing a mount invalidates everything that was opened below it and
/// nothing that belongs to another mount.
pub proof fn law_clearing_is_confined(fs: FsView, mount_fd: u32, fd: u32)
    requires
        fs.wf(),
        fs.descriptors.contains_key(fd),
    ensures
        fs.mount_cleared(mount_fd).descriptors.contains_key(fd) <==> fs.descriptors[fd].is_preopen
            || fs.descriptors[fd].root_fd != mount_fd,
        fs.mount_cleared(mount_fd).descriptors.contains_key(fd) ==> fs.mount_cleared(
            mount_fd,
        ).descriptors[fd] == fs.descriptors[fd],
        fs.mount_cleared(mount_fd).budget == fs.budget,
{
}

/// Some number follows every live handle.
proof fn lemma_some_number_follows(fs: FsView, at_most: u32)
    requires
        fs.wf(),
        FIRST_PREOPEN_FD <= at_most <= fs.next_handle,
        forall|h: u32| #[trigger] fs.live().contains(h) ==> h < at_most,
    ensures
        exists|n: u32| follows_all(fs.live(), FIRST_PREOPEN_FD, n),
    decreases at_most,
{
    if at_most == FIRST_PREOPEN_FD {
        assert forall|h: u32| !fs.live().contains(h) by {
            if fs.live().contains(h) {
                if fs.descriptors.contains_key(h) {
                    assert(fs.descriptor_ok(h));
                } else if fs.streams.contains_key(h) {
                    assert(fs.stream_ok(h));
                } else {
                    assert(fs.dir_stream_ok(h));
                }
            }
        }
        assert(follows_all(fs.live(), FIRST_PREOPEN_FD, FIRST_PREOPEN_FD));
    } else if fs.live().contains((at_most - 1) as u32) {
        assert(follows_all(fs.live(), FIRST_PREOPEN_FD, at_most));
    } else {
        assert forall|h: u32| #[trigger] fs.live().contains(h) implies h < (at_most - 1) as u32 by {
            assert(h != at_most - 1);
        }
        lemma_some_number_follows(fs, (at_most - 1) as u32);
    }
}

/// After a mount was cleared, handle numbers continue right above those in
/// use: a new handle is never one that is still in use.
pub proof fn law_handles_are_fresh_after_clearing(fs: FsView, mount_fd: u32)
    requires
        fs.wf(),
    ensures
        ({
            let after = fs.mount_cleared(mount_fd);
            &&& after.wf()
            &&& follows_all(after.live(), FIRST_PREOPEN_FD, after.next_handle)
            &&& !after.live().contains(after.next_handle)
            &&& after.next_handle <= fs.next_handle
        }),
{
    let gone = fs.opened_below(mount_fd);
    assert forall|fd: u32| #[trigger] gone.contains(fd) implies !fs.preopens.contains_key(fd) by {
        assert(fs.descriptor_ok(fd));
    }
    crate::model::lemma_without(fs, gone);
    let rest = fs.without(gone);
    assert forall|h: u32| #[trigger] rest.live().contains(h) implies h < rest.next_handle by {
        if rest.descriptors.contains_key(h) {
            assert(rest.descriptor_ok(h));
        } else if rest.streams.contains_key(h) {
            assert(rest.stream_ok(h));
        } else {
            assert(rest.dir_stream_ok(h));
        }
    }
    lemma_some_number_follows(rest, rest.next_handle);
    crate::model::lemma_compacted(rest);
    let after = fs.mount_cleared(mount_fd);
    assert(after.live() =~= rest.live());
}

/// A sweep over the ephemeral mounts keeps every mount and every descriptor of
/// a persistent one, and leaves nothing open below an ephemeral one.
pub proof fn law_sweep_spares_persistent_mounts(fs: FsView, mounts: Seq<u32>, n: int, fd: u32)
    requires
        fs.wf(),
        fs.is_sweep_order(mounts),
        0 <= n <= mounts.len(),
        fs.descriptors.contains_key(fd),
    ensures
        fs.swept(mounts.take(n)).preopens == fs.preopens,
        fs.swept(mounts.take(n)).budget == fs.budget,
        fs.swept(mounts.take(n)).descriptors.contains_key(fd) <==> fs.descriptors[fd].is_preopen
            || !mounts.take(n).contains(fs.descriptors[fd].root_fd),
        fs.preopens[fs.descriptors[fd].root_fd].lifetime is Persistent ==> fs.swept(
            mounts.take(n),
        ).descriptors.contains_key(fd),
        n == mounts.len() && fs.preopens[fs.descriptors[fd].root_fd].lifetime is ClearBeforeRun
            && !fs.descriptors[fd].is_preopen ==> !fs.swept(mounts.take(n)).descriptors.contains_key(
            fd,
        ),
        fs.swept(mounts.take(n)).descriptors.contains_key(fd) ==> fs.swept(
            mounts.take(n),
        ).descriptors[fd] == fs.descriptors[fd],
    decreases n,
{
    let root = fs.descriptors[fd].root_fd;
    assert(fs.descriptor_ok(fd));
    if n > 0 {
        law_sweep_spares_persistent_mounts(fs, mounts, n - 1, fd);
        assert(mounts.take(n).drop_last() =~= mounts.take(n - 1));
        let last = mounts[n - 1];
        assert(mounts.take(n).last() == last);
        assert(mounts.take(n).contains(root) <==> mounts.take(n - 1).contains(root) || root
            == last) by {
            assert(mounts.take(n) =~= mounts.take(n - 1).push(last));
            let shorter = mounts.take(n - 1);
            if shorter.contains(root) {
                let j = choose|j: int| 0 <= j < shorter.len() && shorter[j] == root;
                assert(mounts.take(n)[j] == root);
            }
            assert(mounts.take(n)[n - 1] == last);
            if mounts.take(n).contains(root) && root != last {
                let j = choose|j: int| 0 <= j < n && mounts.take(n)[j] == root;
                assert(mounts.take(n - 1)[j] == root);
            }
        }
    }
    if mounts.take(n).contains(root) {
        let j = choose|j: int| 0 <= j < n && mounts.take(n)[j] == root;
        assert(mounts[j] == root);
        assert(mounts.to_set().contains(root));
        assert(fs.ephemeral().contains(root));
    }
    if n == mounts.len() && fs.preopens[root].lifetime is ClearBeforeRun {
        assert(fs.ephemeral().contains(root));
        assert(mounts.to_set().contains(root));
        assert(mounts.take(n) =~= mounts);
    }
}

/// A persistent mount is never cleared.
pub proof fn law_persistent_mounts_are_not_cleared(fs: FsView, fd: u32)
    requires
        fs.preopens.contains_key(fd),
        fs.preopens[fd].lifetime is Persistent,
    ensures
        fs.clear_refusal(fd) == Some(FsErrorView::NotPermitted),
        !fs.ephemeral().contains(fd),
{
}

/// Whether no counter is above its limit.
pub open spec fn within_limits(fs: FsView) -> bool {
    &&& fs.budget.bytes_read <= fs.limits.max_read_bytes_per_run
    &&& fs.budget.bytes_written <= fs.limits.max_written_bytes_per_run
    &&& fs.budget.creations <= fs.limits.max_creations_per_run
    &&& fs.budget.directory_entries <= fs.limits.max_directory_entries_per_run
}

/// What is charged never takes a counter above its limit, and a charge that is
/// refused changes nothing else: the tables stay as they are either way.
pub proof fn law_charges_keep_the_limits(fs: FsView, amount: u64)
    ensures
        fs.reads_charged(amount) matches Some(after) ==> {
            &&& after.budget.bytes_read <= after.limits.max_read_bytes_per_run
            &&& after.budget.bytes_read == fs.budget.bytes_read + amount
            &&& within_limits(fs) ==> within_limits(after)
        },
        fs.writes_charged(amount) matches Some(after) ==> {
            &&& after.budget.bytes_written <= after.limits.max_written_bytes_per_run
            &&& after.budget.bytes_written == fs.budget.bytes_written + amount
            &&& within_limits(fs) ==> within_limits(after)
        },
        fs.creation_charged() matches Some(after) ==> {
            &&& after.budget.creations <= after.limits.max_creations_per_run
            &&& after.budget.creations == fs.budget.creations + 1
            &&& within_limits(fs) ==> within_limits(after)
        },
        fs.entries_charged(amount) matches Some(after) ==> {
            &&& after.budget.directory_entries <= after.limits.max_directory_entries_per_run
            &&& after.budget.directory_entries == fs.budget.directory_entries + amount
            &&& within_limits(fs) ==> within_limits(after)
        },
        within_limits(fs.with_budget(RunBudget::unused())),
{
}

/// All readers share one budget: two reads are charged like one of both
/// amounts together.
pub proof fn law_reads_share_a_budget(fs: FsView, a: u64, b: u64)
    requires
        a + b <= u64::MAX,
    ensures
        match fs.reads_charged(a) {
            Some(after) => after.reads_charged(b) == fs.reads_charged((a + b) as u64),
            None => fs.reads_charged((a + b) as u64) is None,
        },
        match fs.writes_charged(a) {
            Some(after) => after.writes_charged(b) == fs.writes_charged((a + b) as u64),
            None => fs.writes_charged((a + b) as u64) is None,
        },
{
}

/// Where the tables are full, nothing more is opened, whatever the limits were
/// when they filled up; and what is open stays open when limits are lowered.
pub proof fn law_full_tables_refuse(
    fs: FsView,
    limits: FilesystemLimits,
    op: OpenView,
    reply: Result<HostMetadata, HostError>,
    fd: u32,
    offset: u64,
    preopen: PreopenView,
)
    ensures
        ({
            let lowered = FsView { limits, ..fs };
            &&& lowered.descriptors == fs.descriptors
            &&& lowered.streams == fs.streams
            &&& lowered.dir_streams == fs.dir_streams
            &&& fs.descriptors.len() >= limits.max_open_descriptors ==> {
                &&& lowered.open_probe(op, reply).1 is Err
                &&& lowered.open_probe(op, reply).0 == lowered
                &&& lowered.mounting(preopen) is Err
            }
            &&& fs.streams.len() + fs.dir_streams.len() >= limits.max_open_streams ==> {
                &&& lowered.open_stream(fd, offset, false).1 is Err
                &&& lowered.open_stream(fd, offset, true).1 is Err
                &&& lowered.list_request(fd) is Err
            }
        }),
{
}

/// A read stays within the file and within what one read may hold, and what it
/// may hold is what was charged.
pub proof fn law_reads_stay_within_the_file(fs: FsView, op: ReadView, size: u64)
    ensures
        fs.read_size(op, Ok(size)) matches (after, Ok((start, amount))) ==> {
            &&& start + amount <= size
            &&& amount <= op.len
            &&& amount <= fs.limits.max_single_read_bytes
            &&& after.budget.bytes_read == fs.budget.bytes_read + amount
        },
{
}

/// Host directories that are mounted with different lifetimes are never the
/// same, and neither lies inside the other: what is cleared before a run is
/// never part of what is kept.
pub proof fn law_lifetimes_do_not_overlap(fs: FsView, preopen: PreopenView, fd: u32)
    requires
        fs.wf(),
        fs.preopens.contains_key(fd),
        fs.preopens[fd].lifetime != preopen.lifetime,
        fs.preopens[fd].host_root is Some,
        preopen.host_root is Some,
    ensures
        roots_overlap(fs.preopens[fd].host_root->0, preopen.host_root->0) ==> fs.mounting(
            preopen,
        ) == Err::<FsView, _>(MountError::<Seq<char>>::Overlap),
        fs.mounting(preopen) matches Ok(after) ==> after.wf() && after.lifetimes_apart(),
{
    if fs.mounting(preopen) is Ok {
        crate::model::lemma_mounted(fs, preopen);
    }
}

/// Reading a directory stream to its end yields every listed entry once, in
/// the order in which they were listed; after that it yields nothing more.
pub proof fn law_directory_streams_yield_each_entry(fs: FsView, id: u32, n: nat)
    requires
        fs.dir_streams.contains_key(id),
        fs.dir_streams[id].cursor == 0,
        n <= fs.dir_streams[id].entries.len(),
    ensures
        entries_read(fs, id, n).dir_streams.contains_key(id),
        entries_read(fs, id, n).dir_streams[id].entries == fs.dir_streams[id].entries,
        entries_read(fs, id, n).dir_streams[id].cursor == n,
        entries_read(fs, id, n).next_entry(id).1 == if n < fs.dir_streams[id].entries.len() {
            Some(Some(fs.dir_streams[id].entries[n as int]))
        } else {
            Some(None)
        },
    decreases n,
{
    if n > 0 {
        law_directory_streams_yield_each_entry(fs, id, (n - 1) as nat);
    }
}

/// The state after so many entries of a directory stream were read.
pub open spec fn entries_read(fs: FsView, id: u32, n: nat) -> FsView
    decreases n,
{
    if n == 0 {
        fs
    } else {
        entries_read(fs, id, (n - 1) as nat).next_entry(id).0
    }
}

/// Whatever a guest asks for by path, the host is asked to act on the very
/// directory that the guest holds a descriptor of, and on a safe path below it.
pub proof fn law_the_host_acts_on_held_directories(
    fs: FsView,
    dir_fd: u32,
    path: Seq<char>,
    path_flags: PathFlags,
    flags: OpenFlags,
)
    requires
        fs.wf(),
    ensures
        fs.open_request(dir_fd, path, path_flags, flags) matches Ok(op) ==> fs.dir_of(dir_fd)
            == Some(op.target.dir) && op.target.path.safe() && op.fits(fs),
        fs.change_request(dir_fd, path) matches Ok(op) ==> fs.dir_of(dir_fd) == Some(op.target.dir)
            && op.target.path.safe(),
        fs.stat_request(dir_fd, path, path_flags) matches Ok(op) ==> fs.dir_of(dir_fd) == Some(
            op.target.dir,
        ) && op.target.path.safe(),
        fs.list_request(dir_fd) matches Ok(listing) ==> fs.dir_of(dir_fd) == Some(listing.dir),
{
    law_resolved_paths_stay_inside(fs, dir_fd, path);
    if fs.is_directory(dir_fd) {
        assert(fs.descriptor_ok(dir_fd));
    }
}

/// An open file is always reached through the mount that it belongs to, by a
/// safe path that names something below it.
pub proof fn law_files_are_reached_through_their_mount(fs: FsView, fd: u32)
    requires
        fs.wf(),
        fs.is_file(fd),
    ensures
        fs.preopens.contains_key(fs.descriptors[fd].root_fd),
        fs.file_target(fd).dir == fs.preopens[fs.descriptors[fd].root_fd].dir,
        fs.file_target(fd).path.safe(),
        fs.file_target(fd).path.components.len() > 0,
{
    assert(fs.descriptor_ok(fd));
}

/// The host reads by guest path only what a mount grants reading of, and
/// writes only below an output directory that grants it; and both follow the
/// same policy on paths as guests do.
pub proof fn law_the_host_follows_the_path_policy(fs: FsView, path: Seq<char>)
    requires
        fs.wf(),
    ensures
        fs.guest_file_request(path) matches Ok(target) ==> {
            &&& target.path.safe()
            &&& !target.path.requires_directory
            &&& target.dir.grants().reads()
            &&& target.dir.file_grants().reads()
            &&& exists|fd: u32| #[trigger]
                fs.preopens.contains_key(fd) && fs.preopens[fd].dir == target.dir
        },
        fs.output_request(path) matches Ok(target) ==> {
            &&& target.path.safe()
            &&& !target.path.requires_directory
            &&& target.dir.grants().mutates()
            &&& target.dir.file_grants().writes()
            &&& fs.output_fd matches Some(fd) && fs.preopens.contains_key(fd)
                && fs.preopens[fd].dir == target.dir
        },
{
    if let Ok(target) = fs.guest_file_request(path) {
        let (_, relative) = split_once(path.skip(1), '/')->0;
        law_accepted_paths_are_safe(relative);
        let fd = fs.mount_at(mount_point(path))->0;
        assert(fs.is_first_mount(mount_point(path), fd));
        assert(fs.preopens.contains_key(fd));
    }
    if let Ok(target) = fs.output_request(path) {
        let prefix = "/"@ + "output"@ + "/"@;
        law_accepted_paths_are_safe(path.skip(prefix.len() as int));
    }
}

/// No number stands for two things at once: descriptors, file streams and
/// directory streams never share a handle, and none is as high as the next one
/// to be handed out.
pub proof fn law_handles_are_distinct(fs: FsView, h: u32)
    requires
        fs.wf(),
        fs.live().contains(h),
    ensures
        FIRST_PREOPEN_FD <= h < fs.next_handle,
        fs.descriptors.contains_key(h) ==> !fs.streams.contains_key(h)
            && !fs.dir_streams.contains_key(h),
        fs.streams.contains_key(h) ==> !fs.dir_streams.contains_key(h),
{
    if fs.descriptors.contains_key(h) {
        assert(fs.descriptor_ok(h));
    }
    if fs.streams.contains_key(h) {
        assert(fs.stream_ok(h));
    }
    if fs.dir_streams.contains_key(h) {
        assert(fs.dir_stream_ok(h));
    }
}

/// Closing what was just opened restores every table; only the handle number
/// stays used.
pub proof fn law_closing_undoes_opening(fs: FsView, op: OpenView, opened: Option<CapDir>)
    requires
        fs.wf(),
        fs.has_handle(),
        op.fits(fs),
    ensures
        fs.open_finish(op, opened).0.close(fs.next_handle) == Ok::<FsView, FsErrorView>(
            fs.handle_taken(),
        ),
{
    crate::model::lemma_handle_taken(fs);
    let fd = fs.next_handle;
    let after = fs.open_finish(op, opened).0;
    let closed = after.without(set![fd]);
    assert(!fs.live().contains(fd));
    assert(closed.descriptors =~= fs.descriptors);
    assert forall|id: u32| !(#[trigger] after.streams_on(set![fd]).contains(id)) by {
        if after.streams.contains_key(id) {
            assert(fs.streams.contains_key(id));
            assert(fs.stream_ok(id));
        }
    }
    assert forall|id: u32| !(#[trigger] after.dir_streams_on(set![fd]).contains(id)) by {
        if after.dir_streams.contains_key(id) {
            assert(fs.dir_streams.contains_key(id));
            assert(fs.dir_stream_ok(id));
        }
    }
    assert(closed.streams =~= fs.streams);
    assert(closed.dir_streams =~= fs.dir_streams);
    assert(closed =~= fs.handle_taken());
}

/// What is written to a stream piece by piece lands in the file without gaps
/// and without overlap: the next piece begins where the last one ended.
pub proof fn law_stream_writes_are_contiguous(fs: FsView, id: u32, written: u64, len: u64)
    requires
        fs.wf(),
        fs.streams.contains_key(id),
        fs.streams[id].offset + written <= u64::MAX,
    ensures
        fs.stream_advanced(id, written as nat).streams[id].offset == fs.streams[id].offset + written,
        fs.stream_advanced(id, written as nat).stream_write_request(id, len).1 matches Ok(write)
            ==> write.offset == fs.streams[id].offset + written && write.target == fs.file_target(
            fs.streams[id].file_fd,
        ),
        fs.stream_advanced(id, written as nat).stream_request(id, len) matches Ok(read)
            ==> read.offset == fs.streams[id].offset + written,
{
}

/// A request that is refused changes nothing: no counter, no table, no handle.
/// And whatever is granted before the host has done its part touches the
/// counters alone.
pub proof fn law_refused_requests_change_nothing(
    fs: FsView,
    open: OpenView,
    found: Result<HostMetadata, HostError>,
    opened: Option<CapDir>,
    read: ReadView,
    size: Result<u64, HostError>,
    fd: u32,
    offset: u64,
    len: u64,
)
    ensures
        fs.open_probe(open, found).1 is Err ==> fs.open_probe(open, found).0 == fs,
        fs.open_probe(open, found).0 == fs.with_budget(fs.open_probe(open, found).0.budget),
        fs.open_finish(open, opened).1 is Err ==> fs.open_finish(open, opened).0 == fs,
        fs.read_size(read, size).1 is Err ==> fs.read_size(read, size).0 == fs,
        fs.read_size(read, size).0 == fs.with_budget(fs.read_size(read, size).0.budget),
        fs.write_request(fd, offset, len).1 is Err ==> fs.write_request(fd, offset, len).0 == fs,
        fs.write_request(fd, offset, len).0 == fs.with_budget(
            fs.write_request(fd, offset, len).0.budget,
        ),
        fs.stream_write_request(fd, len).1 is Err ==> fs.stream_write_request(fd, len).0 == fs,
        fs.open_stream(fd, offset, true).1 is Err ==> fs.open_stream(fd, offset, true).0 == fs,
        fs.open_stream(fd, offset, false).1 is Err ==> fs.open_stream(fd, offset, false).0 == fs,
{
}

} // verus!
