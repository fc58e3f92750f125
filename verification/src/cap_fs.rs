//! Capability-based filesystem shared across sandbox backends.
//!
//! [`CapFs`] decides; it never touches the host itself. An operation that
//! needs the host runs in steps: a first call checks the request against the
//! capabilities and the limits and says which host operation is due, and the
//! next call takes the reply of the host and goes on from there.
//!
//! * **Input** — host-provided directory, exposed to the guest as a read-only
//!   preopen. The host populates the directory before creating the sandbox;
//!   the guest can only read.
//!
//! * **Output** — where it is asked for, a temp directory or a host-provided
//!   one with explicit permissions, exposed as a writable preopen. Wiped clean
//!   before each run.
//!
//! Snapshots only capture runtime state: input is immutable and output is
//! ephemeral, so no filesystem state needs to be saved or restored.
pub mod calls;
pub mod cleanup;
pub mod emptying;
pub mod files;
pub mod laws;
pub mod listing;
pub mod mounts;
pub mod namespace;
pub mod open;
pub mod outcomes;
pub mod output;
pub mod queries;
pub mod round_trip;
pub mod stat;
pub mod streams;
pub mod sweep;
mod tables;
pub mod target;

pub use cleanup::{Cleanup, CleanupAction, CleanupEvent};
pub use files::{ReadPlan, ReadRequest, ReadStep, WritePlan, WriteRequest};
pub use listing::Listing;
pub use mounts::HostDir;
pub use namespace::{Removal, Rename, RenameStage, Unlink};
pub use open::{ConfirmedOpen, PendingOpen, ProbedOpen};
pub use output::{GuestFileReply, OutputListing};
pub use stat::{PendingStat, StatQuery};
pub use sweep::Sweep;
pub use streams::{StreamPlan, StreamRequest, StreamWrite};
pub use target::Target;

use std::collections::BTreeMap;
use std::path::PathBuf;
use vstd::prelude::*;

use crate::guest_path::GuestRelativePath;
use crate::handles::{HandleAllocator, FIRST_PREOPEN_FD};
use crate::limits::{FilesystemLimits, RunBudget};
use crate::model::lemma_budget_and_limits;
use crate::model::{DescriptorView, DirStreamView, FsView, PreopenView, ResolvedView, StreamState};
use crate::perms::{DescriptorType, Dir, MountLifetime};
use crate::text::texts;

verus! {

broadcast use vstd::std_specs::btree::group_btree_axioms;

/// A preopened directory registered with the filesystem.
struct PreopenEntry {
    dir: Dir,
    guest_path: String,
    lifetime: MountLifetime,
    host_root: Option<Vec<String>>,
}

impl PreopenEntry {
    spec fn model(self) -> PreopenView {
        PreopenView {
            dir: self.dir,
            guest_path: self.guest_path@,
            lifetime: self.lifetime,
            host_root: match self.host_root {
                Some(components) => Some(texts(components@)),
                None => None,
            },
        }
    }
}

struct DescriptorEntry {
    root_fd: u32,
    relative_path: GuestRelativePath,
    descriptor_type: DescriptorType,
    is_preopen: bool,
    parent_fd: Option<u32>,
    directory: Option<Dir>,
}

impl DescriptorEntry {
    spec fn model(self) -> DescriptorView {
        DescriptorView {
            root_fd: self.root_fd,
            path: self.relative_path@,
            descriptor_type: self.descriptor_type,
            is_preopen: self.is_preopen,
            parent_fd: self.parent_fd,
            directory: self.directory,
        }
    }
}

struct DirStreamState {
    dir_fd: u32,
    entries: Vec<(String, bool)>,
    cursor: usize,
}

/// Listed entries: names, and whether each is a directory.
pub open spec fn listed(entries: Seq<(String, bool)>) -> Seq<(Seq<char>, bool)> {
    entries.map_values(|e: (String, bool)| (e.0@, e.1))
}

impl DirStreamState {
    spec fn model(self) -> DirStreamView {
        DirStreamView {
            dir_fd: self.dir_fd,
            entries: listed(self.entries@),
            cursor: self.cursor as nat,
        }
    }
}

/// A guest path resolved against a directory descriptor.
struct ResolvedGuestPath {
    root_fd: u32,
    dir_relative: GuestRelativePath,
    root_relative: GuestRelativePath,
}

impl ResolvedGuestPath {
    spec fn model(self) -> ResolvedView {
        ResolvedView {
            root_fd: self.root_fd,
            dir_relative: self.dir_relative@,
            root_relative: self.root_relative@,
        }
    }

    spec fn wf(self) -> bool {
        &&& self.dir_relative.wf()
        &&& self.root_relative.wf()
        &&& self.dir_relative@.components.len() > 0
        &&& self.root_relative@.components.len() > 0
    }
}

/// Capability-based virtual filesystem.
///
/// Input is read-only and shared across snapshots; output is ephemeral.
pub struct CapFs {
    // Preopened directories keyed by fd.
    preopen_dirs: BTreeMap<u32, PreopenEntry>,
    // The fd assigned to the output preopen (if configured).
    output_fd: Option<u32>,
    // All filesystem descriptors, including preopens and opened descendants.
    descriptors: BTreeMap<u32, DescriptorEntry>,
    streams: BTreeMap<u32, StreamState>,
    dir_streams: BTreeMap<u32, DirStreamState>,
    handles: HandleAllocator,
    limits: FilesystemLimits,
    run_budget: RunBudget,
    // Host filesystem path to the output directory.
    output_path: Option<PathBuf>,
    // Host filesystem path to the temp directory.
    temp_path: Option<PathBuf>,
}

impl View for CapFs {
    type V = FsView;

    closed spec fn view(&self) -> FsView {
        FsView {
            preopens: self.preopen_dirs@.map_values(|e: PreopenEntry| e.model()),
            output_fd: self.output_fd,
            descriptors: self.descriptors@.map_values(|e: DescriptorEntry| e.model()),
            streams: self.streams@,
            dir_streams: self.dir_streams@.map_values(|e: DirStreamState| e.model()),
            next_handle: self.handles.next_handle,
            limits: self.limits,
            budget: self.run_budget,
            output_path: self.output_path,
            temp_path: self.temp_path,
        }
    }
}

impl CapFs {
    /// Whether the stored form of the state is sound: every stored path is one
    /// that the lexical policy accepts.
    pub closed spec fn represents(self) -> bool {
        forall|fd: u32| #[trigger]
            self.descriptors@.contains_key(fd) ==> self.descriptors@[fd].relative_path.wf()
    }

    /// The invariant of a filesystem.
    pub open spec fn wf(self) -> bool {
        self.represents() && self@.wf()
    }

    /// Create an empty filesystem with no preopens.
    ///
    /// Use [`with_input`](Self::with_input),
    /// [`with_temp_output`](Self::with_temp_output), or
    /// [`with_output_dir`](Self::with_output_dir) to add directories. Without
    /// any preopens the guest sees no filesystem.
    pub fn new() -> (r: CapFs)
        ensures
            r.wf(),
            r@ == FsView::empty(),
    {
        let r = CapFs {
            preopen_dirs: BTreeMap::new(),
            output_fd: None,
            descriptors: BTreeMap::new(),
            streams: BTreeMap::new(),
            dir_streams: BTreeMap::new(),
            handles: HandleAllocator { next_handle: FIRST_PREOPEN_FD },
            limits: FilesystemLimits::default(),
            run_budget: RunBudget::default(),
            output_path: None,
            temp_path: None,
        };
        assert(r@ =~= FsView::empty());
        r
    }

    /// Replace the filesystem limits used by this sandbox.
    ///
    /// Existing resources are not evicted when a limit is lowered. New
    /// operations fail with [`FsError::Quota`] until usage is below the limit.
    pub fn with_limits(self, limits: FilesystemLimits) -> (r: CapFs)
        requires
            self.wf(),
        ensures
            r.wf(),
            r@ == (FsView { limits, ..self@ }),
    {
        let mut fs = self;
        fs.limits = limits;
        proof {
            assert(fs@ =~= FsView { limits, ..self@ });
            lemma_budget_and_limits(self@, self@.budget, limits);
        }
        fs
    }

    pub fn limits(&self) -> (r: &FilesystemLimits)
        ensures
            *r == self@.limits,
    {
        &self.limits
    }

    /// Return the host filesystem path of the output directory, if configured.
    pub fn output_path(&self) -> (r: Option<&PathBuf>)
        ensures
            match self@.output_path {
                Some(path) => r == Some(&path),
                None => r is None,
            },
    {
        match &self.output_path {
            Some(path) => Some(path),
            None => None,
        }
    }

    /// Return the host filesystem path of the temp directory, if configured.
    pub fn temp_path(&self) -> (r: Option<&PathBuf>)
        ensures
            match self@.temp_path {
                Some(path) => r == Some(&path),
                None => r is None,
            },
    {
        match &self.temp_path {
            Some(path) => Some(path),
            None => None,
        }
    }
}

impl Default for CapFs {
    fn default() -> (r: CapFs)
        ensures
            r.wf(),
            r@ == FsView::empty(),
    {
        CapFs::new()
    }
}

} // verus!
