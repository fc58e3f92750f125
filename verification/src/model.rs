//! What a filesystem state is: the mathematical model that the contracts of
//! [`CapFs`](crate::cap_fs::CapFs) speak of.
use std::path::PathBuf;
use vstd::prelude::*;

use crate::error::{FsError, MountError};
use crate::guest_path::{joined, lies_within, parsed, PathView};
use crate::handles::{handles_exhausted, FIRST_PREOPEN_FD};
use crate::limits::{charged, FilesystemLimits, RunBudget};
use crate::perms::{DescriptorType, Dir, FilePerms, MountLifetime};
use crate::table::{first_above, follows_all};

verus! {

/// A path of the host. It is carried through the library as an opaque value:
/// nothing is claimed of what is inside it.
#[verifier::external_type_specification]
#[verifier::external_body]
pub struct ExPathBuf(PathBuf);

/// An open file stream: the descriptor it belongs to, its position, and
/// whether it writes.
#[derive(Clone, Copy, Debug, PartialEq, Eq, Structural)]
pub struct StreamState {
    pub file_fd: u32,
    pub offset: u64,
    pub is_write: bool,
}

/// A mounted directory: the capability, the path that a guest sees, whether it
/// is kept between runs, and, where it is known, the host directory behind it.
#[verifier::ext_equal]
pub struct PreopenView {
    pub dir: Dir,
    pub guest_path: Seq<char>,
    pub lifetime: MountLifetime,
    pub host_root: Option<Seq<Seq<char>>>,
}

/// An open descriptor: the mount it belongs to, its path below that mount, its
/// type, whether it is the mount itself, the descriptor it was opened through,
/// and, for a directory, its capability.
#[verifier::ext_equal]
pub struct DescriptorView {
    pub root_fd: u32,
    pub path: PathView,
    pub descriptor_type: DescriptorType,
    pub is_preopen: bool,
    pub parent_fd: Option<u32>,
    pub directory: Option<Dir>,
}

/// An open directory stream: the descriptor it belongs to, the entries listed
/// when it was made, and how many of them were handed out.
#[verifier::ext_equal]
pub struct DirStreamView {
    pub dir_fd: u32,
    pub entries: Seq<(Seq<char>, bool)>,
    pub cursor: nat,
}

/// A filesystem state.
#[verifier::ext_equal]
pub struct FsView {
    pub preopens: Map<u32, PreopenView>,
    pub output_fd: Option<u32>,
    pub descriptors: Map<u32, DescriptorView>,
    pub streams: Map<u32, StreamState>,
    pub dir_streams: Map<u32, DirStreamView>,
    pub next_handle: u32,
    pub limits: FilesystemLimits,
    pub budget: RunBudget,
    pub output_path: Option<PathBuf>,
    pub temp_path: Option<PathBuf>,
}

/// A guest path resolved against a directory descriptor: the mount it leads
/// into, the path relative to the descriptor, and the path relative to the
/// mount.
#[verifier::ext_equal]
pub struct ResolvedView {
    pub root_fd: u32,
    pub dir_relative: PathView,
    pub root_relative: PathView,
}

/// Whether one host directory is the other or lies inside it.
pub open spec fn roots_overlap(a: Seq<Seq<char>>, b: Seq<Seq<char>>) -> bool {
    ||| a.len() <= b.len() && b.take(a.len() as int) == a
    ||| b.len() <= a.len() && a.take(b.len() as int) == b
}

impl FsView {
    /// The state before anything is mounted.
    pub open spec fn empty() -> FsView {
        FsView {
            preopens: Map::empty(),
            output_fd: None,
            descriptors: Map::empty(),
            streams: Map::empty(),
            dir_streams: Map::empty(),
            next_handle: FIRST_PREOPEN_FD,
            limits: FilesystemLimits::standard(),
            budget: RunBudget::unused(),
            output_path: None,
            temp_path: None,
        }
    }

    /// All handles in use: descriptors, file streams and directory streams.
    pub open spec fn live(self) -> Set<u32> {
        self.descriptors.dom().union(self.streams.dom()).union(self.dir_streams.dom())
    }

    /// Whether `fd` is an open directory.
    pub open spec fn is_directory(self, fd: u32) -> bool {
        self.descriptors.contains_key(fd) && self.descriptors[fd].descriptor_type is Directory
    }

    /// Whether `fd` is an open file.
    pub open spec fn is_file(self, fd: u32) -> bool {
        self.descriptors.contains_key(fd) && self.descriptors[fd].descriptor_type is RegularFile
    }

    /// The capability of an open directory.
    pub open spec fn dir_of(self, fd: u32) -> Option<Dir> {
        if self.descriptors.contains_key(fd) {
            self.descriptors[fd].directory
        } else {
            None
        }
    }

    /// The capability of the mount that an open file belongs to.
    pub open spec fn root_of(self, fd: u32) -> Dir {
        self.preopens[self.descriptors[fd].root_fd].dir
    }

    /// Whether an open file grants `perms`.
    pub open spec fn file_grants(self, fd: u32, perms: FilePerms) -> bool {
        self.is_file(fd) && self.root_of(fd).file_grants().includes(perms)
    }

    /// What holds of every open descriptor. It belongs to a mount and has a
    /// safe path below it; exactly the directories carry a capability, and it
    /// grants exactly what the mount grants; the mounts themselves are the
    /// preopened descriptors.
    pub open spec fn descriptor_ok(self, fd: u32) -> bool {
        let d = self.descriptors[fd];
        &&& FIRST_PREOPEN_FD <= fd < self.next_handle
        &&& d.path.safe()
        &&& self.preopens.contains_key(d.root_fd)
        &&& d.descriptor_type !is SymbolicLink
        &&& d.directory is Some <==> d.descriptor_type is Directory
        &&& d.directory matches Some(dir) ==> {
            &&& dir.grants() == self.preopens[d.root_fd].dir.grants()
            &&& dir.file_grants() == self.preopens[d.root_fd].dir.file_grants()
        }
        &&& d.is_preopen <==> self.preopens.contains_key(fd)
        &&& if d.is_preopen {
            &&& d.root_fd == fd
            &&& d.path == PathView::root()
            &&& d.parent_fd is None
            &&& d.directory == Some(self.preopens[fd].dir)
        } else {
            &&& d.path.components.len() > 0
            &&& d.parent_fd is Some
        }
    }

    /// What holds of every file stream: its handle is its own, and the
    /// descriptor behind it is an open file.
    pub open spec fn stream_ok(self, id: u32) -> bool {
        &&& FIRST_PREOPEN_FD <= id < self.next_handle
        &&& !self.descriptors.contains_key(id)
        &&& !self.dir_streams.contains_key(id)
        &&& self.is_file(self.streams[id].file_fd)
    }

    /// What holds of every directory stream: its handle is its own, and the
    /// descriptor behind it is an open directory.
    pub open spec fn dir_stream_ok(self, id: u32) -> bool {
        &&& FIRST_PREOPEN_FD <= id < self.next_handle
        &&& !self.descriptors.contains_key(id)
        &&& !self.streams.contains_key(id)
        &&& self.is_directory(self.dir_streams[id].dir_fd)
        &&& self.dir_streams[id].cursor <= self.dir_streams[id].entries.len()
    }

    /// Whether no ephemeral mount can reach into a persistent one: host
    /// directories mounted with different lifetimes are not the same, and
    /// neither lies inside the other.
    pub open spec fn lifetimes_apart(self) -> bool {
        forall|a: u32, b: u32|
            #![trigger self.preopens[a], self.preopens[b]]
            self.preopens.contains_key(a) && self.preopens.contains_key(b)
                && self.preopens[a].lifetime != self.preopens[b].lifetime
                && self.preopens[a].host_root is Some && self.preopens[b].host_root is Some
                ==> !roots_overlap(self.preopens[a].host_root->0, self.preopens[b].host_root->0)
    }

    /// The invariant of a filesystem state.
    pub open spec fn wf(self) -> bool {
        &&& self.preopens.dom().finite()
        &&& self.descriptors.dom().finite()
        &&& self.streams.dom().finite()
        &&& self.dir_streams.dom().finite()
        &&& FIRST_PREOPEN_FD <= self.next_handle
        &&& forall|fd: u32| #[trigger]
            self.preopens.contains_key(fd) ==> self.descriptors.contains_key(fd)
        &&& forall|fd: u32| #[trigger]
            self.descriptors.contains_key(fd) ==> self.descriptor_ok(fd)
        &&& forall|id: u32| #[trigger] self.streams.contains_key(id) ==> self.stream_ok(id)
        &&& forall|id: u32| #[trigger] self.dir_streams.contains_key(id) ==> self.dir_stream_ok(id)
        &&& self.output_fd matches Some(fd) ==> self.preopens.contains_key(fd)
        &&& self.lifetimes_apart()
    }

    /// The same state with other counters.
    pub open spec fn with_budget(self, budget: RunBudget) -> FsView {
        FsView { budget, ..self }
    }

    /// The state after `amount` bytes were charged to the read budget.
    pub open spec fn reads_charged(self, amount: u64) -> Option<FsView> {
        match charged(self.budget.bytes_read, amount, self.limits.max_read_bytes_per_run) {
            Some(n) => Some(self.with_budget(RunBudget { bytes_read: n, ..self.budget })),
            None => None,
        }
    }

    /// The state after `amount` bytes were charged to the write budget.
    pub open spec fn writes_charged(self, amount: u64) -> Option<FsView> {
        match charged(self.budget.bytes_written, amount, self.limits.max_written_bytes_per_run) {
            Some(n) => Some(self.with_budget(RunBudget { bytes_written: n, ..self.budget })),
            None => None,
        }
    }

    /// The state after one creation was charged.
    pub open spec fn creation_charged(self) -> Option<FsView> {
        match charged(self.budget.creations, 1, self.limits.max_creations_per_run) {
            Some(n) => Some(self.with_budget(RunBudget { creations: n, ..self.budget })),
            None => None,
        }
    }

    /// The state after `amount` listed entries were charged.
    pub open spec fn entries_charged(self, amount: u64) -> Option<FsView> {
        match charged(
            self.budget.directory_entries,
            amount,
            self.limits.max_directory_entries_per_run,
        ) {
            Some(n) => Some(self.with_budget(RunBudget { directory_entries: n, ..self.budget })),
            None => None,
        }
    }

    /// Whether another descriptor may be opened.
    pub open spec fn has_descriptor_room(self) -> bool {
        self.descriptors.len() < self.limits.max_open_descriptors
    }

    /// Whether another stream may be opened.
    pub open spec fn has_stream_room(self) -> bool {
        self.streams.len() + self.dir_streams.len() < self.limits.max_open_streams
    }

    /// Whether a handle number is left.
    pub open spec fn has_handle(self) -> bool {
        self.next_handle < u32::MAX
    }

    /// The state after the next handle number was taken.
    pub open spec fn handle_taken(self) -> FsView {
        FsView { next_handle: (self.next_handle + 1) as u32, ..self }
    }

    /// The state after a descriptor was opened under the next handle number.
    pub open spec fn opened(self, entry: DescriptorView) -> FsView {
        FsView {
            descriptors: self.descriptors.insert(self.next_handle, entry),
            ..self.handle_taken()
        }
    }

    /// The state after a file stream was opened under the next handle number.
    pub open spec fn stream_opened(self, stream: StreamState) -> FsView {
        FsView { streams: self.streams.insert(self.next_handle, stream), ..self.handle_taken() }
    }

    /// The state after a directory stream was opened under the next handle
    /// number.
    pub open spec fn dir_stream_opened(self, stream: DirStreamView) -> FsView {
        FsView {
            dir_streams: self.dir_streams.insert(self.next_handle, stream),
            ..self.handle_taken()
        }
    }

    /// The state after a directory was mounted under the next handle number.
    pub open spec fn mounted(self, preopen: PreopenView) -> FsView {
        FsView {
            preopens: self.preopens.insert(self.next_handle, preopen),
            ..self.opened(
                DescriptorView {
                    root_fd: self.next_handle,
                    path: PathView::root(),
                    descriptor_type: DescriptorType::Directory,
                    is_preopen: true,
                    parent_fd: None,
                    directory: Some(preopen.dir),
                },
            )
        }
    }

    /// Why a mount is refused by the tables: no room, or no handle left.
    pub open spec fn mount_refusal(self) -> Option<FsError<Seq<char>>> {
        if !self.has_descriptor_room() {
            Some(FsError::Quota)
        } else if !self.has_handle() {
            Some(handles_exhausted())
        } else {
            None
        }
    }

    /// Whether a host directory may be mounted with the given lifetime beside
    /// what is mounted already.
    pub open spec fn keeps_apart(self, host_root: Seq<Seq<char>>, lifetime: MountLifetime) -> bool {
        forall|fd: u32| #[trigger]
            self.preopens.contains_key(fd) && self.preopens[fd].lifetime != lifetime
                && self.preopens[fd].host_root is Some ==> !roots_overlap(
                self.preopens[fd].host_root->0,
                host_root,
            )
    }

    /// The state after a directory was mounted, or why it cannot be.
    pub open spec fn mounting(self, preopen: PreopenView) -> Result<FsView, MountError<Seq<char>>> {
        if preopen.host_root is Some && !self.keeps_apart(preopen.host_root->0, preopen.lifetime) {
            Err(MountError::Overlap)
        } else {
            match self.mount_refusal() {
                Some(e) => Err(MountError::Fs(e)),
                None => Ok(self.mounted(preopen)),
            }
        }
    }

    /// The file streams that belong to one of `fds`.
    pub open spec fn streams_on(self, fds: Set<u32>) -> Set<u32> {
        Set::new(
            |id: u32| self.streams.contains_key(id) && fds.contains(self.streams[id].file_fd),
        )
    }

    /// The directory streams that belong to one of `fds`.
    pub open spec fn dir_streams_on(self, fds: Set<u32>) -> Set<u32> {
        Set::new(
            |id: u32| self.dir_streams.contains_key(id) && fds.contains(self.dir_streams[id].dir_fd),
        )
    }

    /// The state without the descriptors `fds` and without the streams that
    /// belong to them.
    pub open spec fn without(self, fds: Set<u32>) -> FsView {
        FsView {
            descriptors: self.descriptors.remove_keys(fds),
            streams: self.streams.remove_keys(self.streams_on(fds)),
            dir_streams: self.dir_streams.remove_keys(self.dir_streams_on(fds)),
            ..self
        }
    }

    /// The opened descriptors at `path` of a mount and below it.
    pub open spec fn subtree(self, root_fd: u32, path: PathView) -> Set<u32> {
        Set::new(
            |fd: u32|
                {
                    &&& self.descriptors.contains_key(fd)
                    &&& !self.descriptors[fd].is_preopen
                    &&& self.descriptors[fd].root_fd == root_fd
                    &&& lies_within(self.descriptors[fd].path, path)
                },
        )
    }

    /// The opened descriptors below a mount.
    pub open spec fn opened_below(self, mount_fd: u32) -> Set<u32> {
        Set::new(
            |fd: u32|
                {
                    &&& self.descriptors.contains_key(fd)
                    &&& !self.descriptors[fd].is_preopen
                    &&& self.descriptors[fd].root_fd == mount_fd
                },
        )
    }

    /// The state in which handle numbers continue right above the live ones.
    pub open spec fn handles_compacted(self) -> FsView {
        FsView { next_handle: first_above(self.live(), FIRST_PREOPEN_FD), ..self }
    }

    /// The state after the mount was cleared: every opened descriptor below it
    /// is gone, together with its streams.
    pub open spec fn mount_cleared(self, mount_fd: u32) -> FsView {
        self.without(self.opened_below(mount_fd)).handles_compacted()
    }

    /// A guest path resolved against a directory descriptor.
    pub open spec fn resolved(self, dir_fd: u32, path: Seq<char>) -> Result<
        ResolvedView,
        FsError<Seq<char>>,
    > {
        match parsed(path) {
            None => Err(FsError::InvalidPath),
            Some(dir_relative) => if !self.is_directory(dir_fd) {
                Err(FsError::BadDescriptor)
            } else {
                let parent = self.descriptors[dir_fd];
                match joined(parent.path, dir_relative) {
                    None => Err(FsError::InvalidPath),
                    Some(root_relative) => Ok(
                        ResolvedView { root_fd: parent.root_fd, dir_relative, root_relative },
                    ),
                }
            },
        }
    }

    /// The first mount, by descriptor, that a guest sees at `guest_path`.
    pub open spec fn is_first_mount(self, guest_path: Seq<char>, fd: u32) -> bool {
        &&& self.preopens.contains_key(fd)
        &&& self.preopens[fd].guest_path == guest_path
        &&& forall|other: u32| #[trigger]
            self.preopens.contains_key(other) && self.preopens[other].guest_path == guest_path
                ==> fd <= other
    }

    /// Whether the output directory is what a guest sees at `/output`, and
    /// nothing else is mounted there.
    pub open spec fn output_mounted_once(self) -> bool {
        &&& self.output_fd matches Some(fd) ==> self.preopens.contains_key(fd)
            && self.preopens[fd].guest_path == "/output"@
        &&& forall|fd: u32| #[trigger]
            self.preopens.contains_key(fd) && self.preopens[fd].guest_path == "/output"@
                ==> self.output_fd == Some(fd)
    }

    /// The descriptor of the first mount at `guest_path`, where there is one.
    pub open spec fn mount_at(self, guest_path: Seq<char>) -> Option<u32> {
        if exists|fd: u32| self.is_first_mount(guest_path, fd) {
            Some(choose|fd: u32| self.is_first_mount(guest_path, fd))
        } else {
            None
        }
    }
}

/// Taking a handle number keeps the invariant.
pub proof fn lemma_handle_taken(fs: FsView)
    requires
        fs.wf(),
        fs.has_handle(),
    ensures
        fs.handle_taken().wf(),
        !fs.live().contains(fs.next_handle),
{
    let after = fs.handle_taken();
    assert forall|fd: u32| #[trigger]
        after.descriptors.contains_key(fd) implies after.descriptor_ok(fd) by {
        assert(fs.descriptor_ok(fd));
    }
    assert forall|id: u32| #[trigger]
        after.streams.contains_key(id) implies after.stream_ok(id) by {
        assert(fs.stream_ok(id));
    }
    assert forall|id: u32| #[trigger]
        after.dir_streams.contains_key(id) implies after.dir_stream_ok(id) by {
        assert(fs.dir_stream_ok(id));
    }
    if fs.descriptors.contains_key(fs.next_handle) {
        assert(fs.descriptor_ok(fs.next_handle));
    }
    if fs.streams.contains_key(fs.next_handle) {
        assert(fs.stream_ok(fs.next_handle));
    }
    if fs.dir_streams.contains_key(fs.next_handle) {
        assert(fs.dir_stream_ok(fs.next_handle));
    }
    lemma_lifetimes_kept(fs, after);
}

/// Counters and limits play no part in the invariant.
pub proof fn lemma_budget_and_limits(fs: FsView, budget: RunBudget, limits: FilesystemLimits)
    requires
        fs.wf(),
    ensures
        (FsView { budget, limits, ..fs }).wf(),
        fs.with_budget(budget).wf(),
{
    let after = FsView { budget, limits, ..fs };
    lemma_same_tables(fs, after);
    lemma_same_tables(fs, fs.with_budget(budget));
}

/// The invariant depends on the tables alone.
pub proof fn lemma_same_tables(fs: FsView, after: FsView)
    requires
        fs.wf(),
        after.preopens == fs.preopens,
        after.descriptors == fs.descriptors,
        after.streams == fs.streams,
        after.dir_streams == fs.dir_streams,
        after.next_handle == fs.next_handle,
        after.output_fd matches Some(fd) ==> after.preopens.contains_key(fd),
    ensures
        after.wf(),
{
    assert forall|fd: u32| #[trigger]
        after.descriptors.contains_key(fd) implies after.descriptor_ok(fd) by {
        assert(fs.descriptor_ok(fd));
    }
    assert forall|id: u32| #[trigger]
        after.streams.contains_key(id) implies after.stream_ok(id) by {
        assert(fs.stream_ok(id));
    }
    assert forall|id: u32| #[trigger]
        after.dir_streams.contains_key(id) implies after.dir_stream_ok(id) by {
        assert(fs.dir_stream_ok(id));
    }
    lemma_lifetimes_kept(fs, after);
}

/// Opening a descriptor below a mount keeps the invariant.
pub proof fn lemma_opened(fs: FsView, entry: DescriptorView)
    requires
        fs.wf(),
        fs.has_handle(),
        fs.preopens.contains_key(entry.root_fd),
        entry.path.safe(),
        entry.path.components.len() > 0,
        !entry.is_preopen,
        entry.parent_fd is Some,
        entry.descriptor_type !is SymbolicLink,
        entry.directory is Some <==> entry.descriptor_type is Directory,
        entry.directory matches Some(dir) ==> {
            &&& dir.grants() == fs.preopens[entry.root_fd].dir.grants()
            &&& dir.file_grants() == fs.preopens[entry.root_fd].dir.file_grants()
        },
    ensures
        fs.opened(entry).wf(),
        !fs.live().contains(fs.next_handle),
{
    lemma_handle_taken(fs);
    let taken = fs.handle_taken();
    let after = fs.opened(entry);
    assert forall|fd: u32| #[trigger]
        after.descriptors.contains_key(fd) implies after.descriptor_ok(fd) by {
        if fd != fs.next_handle {
            assert(taken.descriptor_ok(fd));
        } else if fs.preopens.contains_key(fd) {
            assert(fs.descriptors.contains_key(fd));
        }
    }
    assert forall|id: u32| #[trigger]
        after.streams.contains_key(id) implies after.stream_ok(id) by {
        assert(taken.stream_ok(id));
        assert(!fs.live().contains(fs.next_handle));
    }
    assert forall|id: u32| #[trigger]
        after.dir_streams.contains_key(id) implies after.dir_stream_ok(id) by {
        assert(taken.dir_stream_ok(id));
        assert(!fs.live().contains(fs.next_handle));
    }
    lemma_lifetimes_kept(fs, after);
}

/// Mounting a directory that keeps apart from the others keeps the invariant.
pub proof fn lemma_mounted(fs: FsView, preopen: PreopenView)
    requires
        fs.wf(),
        fs.has_handle(),
        preopen.host_root matches Some(root) ==> fs.keeps_apart(root, preopen.lifetime),
    ensures
        fs.mounted(preopen).wf(),
        !fs.live().contains(fs.next_handle),
{
    lemma_handle_taken(fs);
    let taken = fs.handle_taken();
    let after = fs.mounted(preopen);
    let new_fd = fs.next_handle;
    assert(crate::guest_path::normal_form(PathView::root().components).len() == 0);
    assert(vstd::utf8::encode_utf8(Seq::<char>::empty()) =~= Seq::empty());
    assert(crate::guest_path::normal_form(PathView::root().components) =~= Seq::empty());
    assert(PathView::root().safe());
    assert(!fs.preopens.contains_key(new_fd)) by {
        if fs.preopens.contains_key(new_fd) {
            assert(fs.descriptors.contains_key(new_fd));
        }
    }
    assert forall|fd: u32| #[trigger] after.preopens.contains_key(
        fd,
    ) implies after.descriptors.contains_key(fd) by {
        if fd != new_fd {
            assert(fs.preopens.contains_key(fd));
        }
    }
    assert forall|fd: u32| #[trigger]
        after.descriptors.contains_key(fd) implies after.descriptor_ok(fd) by {
        if fd != new_fd {
            assert(taken.descriptor_ok(fd));
            assert(fs.preopens.contains_key(fs.descriptors[fd].root_fd));
        }
    }
    assert forall|id: u32| #[trigger]
        after.streams.contains_key(id) implies after.stream_ok(id) by {
        assert(taken.stream_ok(id));
        assert(!fs.live().contains(new_fd));
    }
    assert forall|id: u32| #[trigger]
        after.dir_streams.contains_key(id) implies after.dir_stream_ok(id) by {
        assert(taken.dir_stream_ok(id));
        assert(!fs.live().contains(new_fd));
    }
    assert forall|a: u32, b: u32|
        #![trigger after.preopens[a], after.preopens[b]]
        after.preopens.contains_key(a) && after.preopens.contains_key(b)
            && after.preopens[a].lifetime != after.preopens[b].lifetime
            && after.preopens[a].host_root is Some && after.preopens[b].host_root is Some implies
        !roots_overlap(after.preopens[a].host_root->0, after.preopens[b].host_root->0) by {
        if a != new_fd && b != new_fd {
            assert(fs.preopens[a] == after.preopens[a]);
            assert(fs.preopens[b] == after.preopens[b]);
        } else if a != new_fd {
            assert(fs.preopens.contains_key(a));
        } else if b != new_fd {
            assert(fs.preopens.contains_key(b));
        }
    }
}

/// Dropping opened descriptors together with their streams keeps the
/// invariant.
pub proof fn lemma_without(fs: FsView, fds: Set<u32>)
    requires
        fs.wf(),
        forall|fd: u32| #[trigger] fds.contains(fd) ==> !fs.preopens.contains_key(fd),
    ensures
        fs.without(fds).wf(),
{
    let after = fs.without(fds);
    assert forall|fd: u32| #[trigger]
        after.descriptors.contains_key(fd) implies after.descriptor_ok(fd) by {
        assert(fs.descriptor_ok(fd));
    }
    assert forall|id: u32| #[trigger]
        after.streams.contains_key(id) implies after.stream_ok(id) by {
        assert(fs.streams.contains_key(id));
        assert(fs.stream_ok(id));
        assert(!fs.streams_on(fds).contains(id));
    }
    assert forall|id: u32| #[trigger]
        after.dir_streams.contains_key(id) implies after.dir_stream_ok(id) by {
        assert(fs.dir_streams.contains_key(id));
        assert(fs.dir_stream_ok(id));
        assert(!fs.dir_streams_on(fds).contains(id));
    }
    assert(after.descriptors.dom() =~= fs.descriptors.dom().difference(fds));
    assert(after.streams.dom() =~= fs.streams.dom().difference(fs.streams_on(fds)));
    assert(after.dir_streams.dom() =~= fs.dir_streams.dom().difference(fs.dir_streams_on(fds)));
    lemma_lifetimes_kept(fs, after);
}

/// Opening a file stream keeps the invariant.
pub proof fn lemma_stream_opened(fs: FsView, stream: StreamState)
    requires
        fs.wf(),
        fs.has_handle(),
        fs.is_file(stream.file_fd),
    ensures
        fs.stream_opened(stream).wf(),
        !fs.live().contains(fs.next_handle),
{
    lemma_handle_taken(fs);
    let taken = fs.handle_taken();
    let after = fs.stream_opened(stream);
    assert(!fs.live().contains(fs.next_handle));
    assert forall|fd: u32| #[trigger]
        after.descriptors.contains_key(fd) implies after.descriptor_ok(fd) by {
        assert(taken.descriptor_ok(fd));
    }
    assert forall|id: u32| #[trigger]
        after.streams.contains_key(id) implies after.stream_ok(id) by {
        if id != fs.next_handle {
            assert(taken.stream_ok(id));
        }
    }
    assert forall|id: u32| #[trigger]
        after.dir_streams.contains_key(id) implies after.dir_stream_ok(id) by {
        assert(taken.dir_stream_ok(id));
    }
    lemma_lifetimes_kept(fs, after);
}

/// Opening a directory stream keeps the invariant.
pub proof fn lemma_dir_stream_opened(fs: FsView, stream: DirStreamView)
    requires
        fs.wf(),
        fs.has_handle(),
        fs.is_directory(stream.dir_fd),
        stream.cursor <= stream.entries.len(),
    ensures
        fs.dir_stream_opened(stream).wf(),
        !fs.live().contains(fs.next_handle),
{
    lemma_handle_taken(fs);
    let taken = fs.handle_taken();
    let after = fs.dir_stream_opened(stream);
    assert(!fs.live().contains(fs.next_handle));
    assert forall|fd: u32| #[trigger]
        after.descriptors.contains_key(fd) implies after.descriptor_ok(fd) by {
        assert(taken.descriptor_ok(fd));
    }
    assert forall|id: u32| #[trigger]
        after.streams.contains_key(id) implies after.stream_ok(id) by {
        assert(taken.stream_ok(id));
    }
    assert forall|id: u32| #[trigger]
        after.dir_streams.contains_key(id) implies after.dir_stream_ok(id) by {
        if id != fs.next_handle {
            assert(taken.dir_stream_ok(id));
        }
    }
    lemma_lifetimes_kept(fs, after);
}

/// Moving a file stream keeps the invariant.
pub proof fn lemma_stream_moved(fs: FsView, id: u32, stream: StreamState)
    requires
        fs.wf(),
        fs.streams.contains_key(id),
        stream.file_fd == fs.streams[id].file_fd,
    ensures
        (FsView { streams: fs.streams.insert(id, stream), ..fs }).wf(),
{
    let after = FsView { streams: fs.streams.insert(id, stream), ..fs };
    assert(fs.stream_ok(id));
    assert(after.streams.dom() =~= fs.streams.dom());
    assert forall|fd: u32| #[trigger]
        after.descriptors.contains_key(fd) implies after.descriptor_ok(fd) by {
        assert(fs.descriptor_ok(fd));
    }
    assert forall|other: u32| #[trigger] after.streams.contains_key(other) implies after.stream_ok(
        other,
    ) by {
        assert(fs.stream_ok(other));
    }
    assert forall|other: u32| #[trigger]
        after.dir_streams.contains_key(other) implies after.dir_stream_ok(other) by {
        assert(fs.dir_stream_ok(other));
    }
    lemma_lifetimes_kept(fs, after);
}

/// Moving a directory stream keeps the invariant.
pub proof fn lemma_dir_stream_moved(fs: FsView, id: u32, stream: DirStreamView)
    requires
        fs.wf(),
        fs.dir_streams.contains_key(id),
        stream.dir_fd == fs.dir_streams[id].dir_fd,
        stream.cursor <= stream.entries.len(),
    ensures
        (FsView { dir_streams: fs.dir_streams.insert(id, stream), ..fs }).wf(),
{
    let after = FsView { dir_streams: fs.dir_streams.insert(id, stream), ..fs };
    assert(fs.dir_stream_ok(id));
    assert(after.dir_streams.dom() =~= fs.dir_streams.dom());
    assert forall|fd: u32| #[trigger]
        after.descriptors.contains_key(fd) implies after.descriptor_ok(fd) by {
        assert(fs.descriptor_ok(fd));
    }
    assert forall|other: u32| #[trigger] after.streams.contains_key(other) implies after.stream_ok(
        other,
    ) by {
        assert(fs.stream_ok(other));
    }
    assert forall|other: u32| #[trigger]
        after.dir_streams.contains_key(other) implies after.dir_stream_ok(other) by {
        assert(fs.dir_stream_ok(other));
    }
    lemma_lifetimes_kept(fs, after);
}

/// Dropping streams keeps the invariant.
pub proof fn lemma_fewer_streams(fs: FsView, after: FsView)
    requires
        fs.wf(),
        after == (FsView { streams: after.streams, dir_streams: after.dir_streams, ..fs }),
        after.streams.submap_of(fs.streams),
        after.dir_streams.submap_of(fs.dir_streams),
    ensures
        after.wf(),
{
    assert(after.streams.dom().subset_of(fs.streams.dom()));
    assert(after.dir_streams.dom().subset_of(fs.dir_streams.dom()));
    vstd::set_lib::lemma_set_subset_finite(fs.streams.dom(), after.streams.dom());
    vstd::set_lib::lemma_set_subset_finite(fs.dir_streams.dom(), after.dir_streams.dom());
    assert forall|fd: u32| #[trigger]
        after.descriptors.contains_key(fd) implies after.descriptor_ok(fd) by {
        assert(fs.descriptor_ok(fd));
    }
    assert forall|id: u32| #[trigger]
        after.streams.contains_key(id) implies after.stream_ok(id) by {
        assert(fs.streams.contains_key(id));
        assert(fs.stream_ok(id));
    }
    assert forall|id: u32| #[trigger]
        after.dir_streams.contains_key(id) implies after.dir_stream_ok(id) by {
        assert(fs.dir_streams.contains_key(id));
        assert(fs.dir_stream_ok(id));
    }
    lemma_lifetimes_kept(fs, after);
}

/// Mounts that stay as they are stay apart.
pub proof fn lemma_lifetimes_kept(fs: FsView, after: FsView)
    requires
        fs.lifetimes_apart(),
        after.preopens == fs.preopens,
    ensures
        after.lifetimes_apart(),
{
    assert forall|a: u32, b: u32|
        #![trigger after.preopens[a], after.preopens[b]]
        after.preopens.contains_key(a) && after.preopens.contains_key(b)
            && after.preopens[a].lifetime != after.preopens[b].lifetime
            && after.preopens[a].host_root is Some && after.preopens[b].host_root is Some implies
        !roots_overlap(after.preopens[a].host_root->0, after.preopens[b].host_root->0) by {
        assert(fs.preopens[a] == after.preopens[a]);
        assert(fs.preopens[b] == after.preopens[b]);
    }
}

/// Letting handle numbers continue right above the live ones keeps the
/// invariant, and the next number is not above the one before.
pub proof fn lemma_compacted(fs: FsView)
    requires
        fs.wf(),
        exists|n: u32| follows_all(fs.live(), FIRST_PREOPEN_FD, n),
    ensures
        fs.handles_compacted().wf(),
        follows_all(fs.live(), FIRST_PREOPEN_FD, fs.handles_compacted().next_handle),
        fs.handles_compacted().next_handle <= fs.next_handle,
{
    let after = fs.handles_compacted();
    let next = after.next_handle;
    assert(follows_all(fs.live(), FIRST_PREOPEN_FD, next));
    assert forall|fd: u32| #[trigger]
        after.descriptors.contains_key(fd) implies after.descriptor_ok(fd) by {
        assert(fs.descriptor_ok(fd));
        assert(fs.live().contains(fd));
    }
    assert forall|id: u32| #[trigger]
        after.streams.contains_key(id) implies after.stream_ok(id) by {
        assert(fs.stream_ok(id));
        assert(fs.live().contains(id));
    }
    assert forall|id: u32| #[trigger]
        after.dir_streams.contains_key(id) implies after.dir_stream_ok(id) by {
        assert(fs.dir_stream_ok(id));
        assert(fs.live().contains(id));
    }
    if exists|h: u32| fs.live().contains(h) {
        let last = (next - 1) as u32;
        assert(fs.live().contains(last));
        if fs.descriptors.contains_key(last) {
            assert(fs.descriptor_ok(last));
        } else if fs.streams.contains_key(last) {
            assert(fs.stream_ok(last));
        } else {
            assert(fs.dir_stream_ok(last));
        }
    }
    lemma_lifetimes_kept(fs, after);
}

} // verus!
