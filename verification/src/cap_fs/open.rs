//! Opening files and directories.
//!
//! Opening runs in steps. [`CapFs::open_at`] checks the request; the host then
//! looks the path up. [`CapFs::open_probed`] decides on what was found whether
//! the host has to create or truncate the file. The host looks the path up
//! once more, [`ProbedOpen::confirmed`] decides what kind of descriptor it is,
//! and [`CapFs::opened`] enters it.
use cap_std::fs::Dir as CapDir;
use vstd::prelude::*;

use super::target::TargetView;
use super::{CapFs, DescriptorEntry, Target};
use crate::error::{outcome, FsError, FsErrorView, HostError, IoErrorKind};
use crate::guest_path::{GuestRelativePath, PathView};
use crate::handles::handles_exhausted;
use crate::model::{lemma_opened, DescriptorView, FsView};
use crate::perms::{DescriptorType, Dir, DirPerms, HostMetadata, OpenFlags, PathFlags};

verus! {

broadcast use vstd::std_specs::btree::group_btree_axioms;

/// A checked request to open a path.
#[verifier::ext_equal]
pub struct OpenView {
    /// The directory descriptor that the request was made on.
    pub dir_fd: u32,
    /// The mount that the descriptor belongs to.
    pub root_fd: u32,
    /// The directory, and the path below it.
    pub target: TargetView,
    /// The path below the mount.
    pub root_path: PathView,
    /// Whether a final symbolic link is followed.
    pub follows: bool,
    /// Whether a missing file is created.
    pub creates: bool,
    /// Whether the file is cut to zero length.
    pub truncates: bool,
    /// Whether the path has to name a directory.
    pub wants_directory: bool,
}

impl OpenView {
    /// Whether the request still agrees with a state: the mount is there and
    /// grants what the directory grants.
    pub open spec fn fits(self, fs: FsView) -> bool {
        &&& fs.preopens.contains_key(self.root_fd)
        &&& self.target.dir.grants() == fs.preopens[self.root_fd].dir.grants()
        &&& self.target.dir.file_grants() == fs.preopens[self.root_fd].dir.file_grants()
    }

    /// The descriptor that the request leads to.
    pub open spec fn entry(self, opened: Option<CapDir>) -> DescriptorView {
        DescriptorView {
            root_fd: self.root_fd,
            path: self.root_path,
            descriptor_type: if opened is Some {
                DescriptorType::Directory
            } else {
                DescriptorType::RegularFile
            },
            is_preopen: false,
            parent_fd: Some(self.dir_fd),
            directory: match opened {
                Some(host) => Some(
                    Dir::wrapping(host, self.target.dir.grants(), self.target.dir.file_grants()),
                ),
                None => None,
            },
        }
    }

    /// What kind of descriptor a path is that was found after the host did
    /// what was due.
    pub open spec fn confirm(self, reply: Result<HostMetadata, HostError>) -> Result<
        DescriptorType,
        FsErrorView,
    > {
        match reply {
            Err(e) => Err(e.classify()),
            Ok(found) => if !self.follows && found.is_symlink {
                Err(FsError::SymlinkLoop)
            } else if found.is_dir {
                Ok(DescriptorType::Directory)
            } else {
                Ok(DescriptorType::RegularFile)
            },
        }
    }
}

impl FsView {
    /// Checks a request to open `path` below the directory `dir_fd`. Creating
    /// and truncating need a directory that may be changed.
    pub open spec fn open_request(
        self,
        dir_fd: u32,
        path: Seq<char>,
        path_flags: PathFlags,
        flags: OpenFlags,
    ) -> Result<OpenView, FsErrorView> {
        match self.resolved(dir_fd, path) {
            Err(e) => Err(e),
            Ok(at) => {
                let dir = self.descriptors[dir_fd].directory->0;
                if (flags.creates() || flags.truncates()) && !dir.grants().mutates() {
                    Err(FsError::NotPermitted)
                } else {
                    Ok(
                        OpenView {
                            dir_fd,
                            root_fd: at.root_fd,
                            target: TargetView { dir, path: at.dir_relative },
                            root_path: at.root_relative,
                            follows: path_flags.follows(),
                            creates: flags.creates(),
                            truncates: flags.truncates(),
                            wants_directory: flags.wants_directory()
                                || at.dir_relative.requires_directory,
                        },
                    )
                }
            },
        }
    }

    /// Decides on what the host found at the path: the state afterwards, and
    /// whether the host has to create or truncate the file.
    pub open spec fn open_probe(self, op: OpenView, reply: Result<HostMetadata, HostError>) -> (
        FsView,
        Result<bool, FsErrorView>,
    ) {
        let found = match reply {
            Ok(metadata) => Some(metadata),
            Err(_) => None,
        };
        if reply is Err && reply->Err_0.kind != IoErrorKind::NotFound {
            (self, Err(reply->Err_0.classify()))
        } else if found is None && !op.creates {
            (self, Err(FsError::NoEntry))
        } else if !op.follows && found is Some && found->0.is_symlink {
            (self, Err(FsError::SymlinkLoop))
        } else if op.wants_directory && !(found is Some && found->0.is_dir) {
            (self, Err(FsError::NoEntry))
        } else if op.truncates && found is Some && found->0.is_dir {
            (self, Err(FsError::InvalidPath))
        } else if !self.has_descriptor_room() {
            (self, Err(FsError::Quota))
        } else if found is None {
            match self.creation_charged() {
                Some(after) => (after, Ok(true)),
                None => (self, Err(FsError::Quota)),
            }
        } else {
            (self, Ok(op.truncates))
        }
    }

    /// Enters the opened descriptor.
    pub open spec fn open_finish(self, op: OpenView, opened: Option<CapDir>) -> (
        FsView,
        Result<u32, FsErrorView>,
    ) {
        if self.has_handle() {
            (self.opened(op.entry(opened)), Ok(self.next_handle))
        } else {
            (self, Err(handles_exhausted()))
        }
    }
}

/// A request to open a path. The host is to look the path up, following a
/// final symbolic link if asked to.
pub struct PendingOpen {
    dir_fd: u32,
    root_fd: u32,
    target: Target,
    root_relative: GuestRelativePath,
    follow_symlinks: bool,
    create: bool,
    truncate: bool,
    require_directory: bool,
}

impl View for PendingOpen {
    type V = OpenView;

    closed spec fn view(&self) -> OpenView {
        OpenView {
            dir_fd: self.dir_fd,
            root_fd: self.root_fd,
            target: self.target@,
            root_path: self.root_relative@,
            follows: self.follow_symlinks,
            creates: self.create,
            truncates: self.truncate,
            wants_directory: self.require_directory,
        }
    }
}

impl PendingOpen {
    /// The stored paths are ones that the lexical policy accepts.
    pub closed spec fn wf(self) -> bool {
        &&& self.target.wf()
        &&& self.root_relative.wf()
        &&& self.root_relative@.components.len() > 0
    }

    /// What the host is to look up.
    pub fn target(&self) -> (r: &Target)
        requires
            self.wf(),
        ensures
            r.wf(),
            r@ == self@.target,
    {
        &self.target
    }

    /// Whether a final symbolic link is followed.
    pub fn follows_symlinks(&self) -> (r: bool)
        ensures
            r == self@.follows,
    {
        self.follow_symlinks
    }
}

/// A request whose path was looked up once. Where so decided, the host is to
/// create or truncate the file; then it is to look the path up again.
pub struct ProbedOpen {
    op: PendingOpen,
    create: bool,
}

impl View for ProbedOpen {
    type V = OpenView;

    closed spec fn view(&self) -> OpenView {
        self.op@
    }
}

impl ProbedOpen {
    pub closed spec fn wf(self) -> bool {
        self.op.wf()
    }

    /// Whether the host has to create or truncate the file.
    pub closed spec fn creation_due(self) -> bool {
        self.create
    }

    /// Whether the host has to create or truncate the file.
    pub fn must_create(&self) -> (r: bool)
        ensures
            r == self.creation_due(),
    {
        self.create
    }

    /// What the host is to create, and to look up again.
    pub fn target(&self) -> (r: &Target)
        requires
            self.wf(),
        ensures
            r.wf(),
            r@ == self@.target,
    {
        &self.op.target
    }

    /// Whether a final symbolic link is followed.
    pub fn follows_symlinks(&self) -> (r: bool)
        ensures
            r == self@.follows,
    {
        self.op.follow_symlinks
    }

    /// Decides what kind of descriptor the path is, from what the host found
    /// after it did what was due.
    pub fn confirmed(self, reply: Result<HostMetadata, HostError>) -> (r: Result<
        ConfirmedOpen,
        FsError,
    >)
        requires
            self.wf(),
        ensures
            match self@.confirm(reply) {
                Ok(kind) => r matches Ok(op) && op.wf() && op@ == self@ && op.kind() == kind,
                Err(error) => r matches Err(e) && e@ == error,
            },
    {
        let metadata = match reply {
            Ok(metadata) => metadata,
            Err(e) => return Err(FsError::from_io(e)),
        };
        if !self.op.follow_symlinks && metadata.is_symlink {
            return Err(FsError::SymlinkLoop);
        }
        let descriptor_type = if metadata.is_dir {
            DescriptorType::Directory
        } else {
            DescriptorType::RegularFile
        };
        Ok(ConfirmedOpen { op: self.op, descriptor_type })
    }
}

/// A request whose kind of descriptor is known. The host is to open the path
/// where it is a directory.
pub struct ConfirmedOpen {
    op: PendingOpen,
    descriptor_type: DescriptorType,
}

impl View for ConfirmedOpen {
    type V = OpenView;

    closed spec fn view(&self) -> OpenView {
        self.op@
    }
}

impl ConfirmedOpen {
    pub closed spec fn wf(self) -> bool {
        self.op.wf()
    }

    /// What kind of descriptor the path is.
    pub closed spec fn kind(self) -> DescriptorType {
        self.descriptor_type
    }

    /// Whether the path is a directory, which the host has to open.
    pub fn is_directory(&self) -> (r: bool)
        ensures
            r == (self.kind() is Directory),
    {
        self.descriptor_type == DescriptorType::Directory
    }

    /// What the host is to open.
    pub fn target(&self) -> (r: &Target)
        requires
            self.wf(),
        ensures
            r.wf(),
            r@ == self@.target,
    {
        &self.op.target
    }
}

impl CapFs {
    /// Asks to open a path relative to a directory descriptor, following a
    /// final symbolic link.
    pub fn open_at(&self, dir_fd: u32, path: &str, flags: OpenFlags) -> (r: Result<
        PendingOpen,
        FsError,
    >)
        requires
            self.wf(),
        ensures
            match self@.open_request(dir_fd, path@, PathFlags::SYMLINK_FOLLOW, flags) {
                Ok(view) => r matches Ok(op) && op.wf() && op@ == view && view.fits(self@),
                Err(error) => r matches Err(e) && e@ == error,
            },
    {
        self.open_at_with_path_flags(dir_fd, path, PathFlags::SYMLINK_FOLLOW, flags)
    }

    /// Asks to open a validated path relative to a directory descriptor.
    pub fn open_at_with_path_flags(
        &self,
        dir_fd: u32,
        path: &str,
        path_flags: PathFlags,
        flags: OpenFlags,
    ) -> (r: Result<PendingOpen, FsError>)
        requires
            self.wf(),
        ensures
            match self@.open_request(dir_fd, path@, path_flags, flags) {
                Ok(view) => r matches Ok(op) && op.wf() && op@ == view && view.fits(self@),
                Err(error) => r matches Err(e) && e@ == error,
            },
    {
        let resolved = match self.resolve_at(dir_fd, path) {
            Ok(resolved) => resolved,
            Err(e) => return Err(e),
        };
        assert(self@.descriptor_ok(dir_fd));
        let dir = match self.get_dir(dir_fd) {
            Some(dir) => dir.clone(),
            None => return Err(FsError::BadDescriptor),
        };
        let create = flags.contains(OpenFlags::CREATE);
        let truncate = flags.contains(OpenFlags::TRUNCATE);
        let require_directory = flags.contains(OpenFlags::DIRECTORY)
            || resolved.dir_relative.requires_directory();
        if (create || truncate) && !dir.perms().contains(DirPerms::MUTATE) {
            return Err(FsError::NotPermitted);
        }
        let follow_symlinks = path_flags.contains(PathFlags::SYMLINK_FOLLOW);
        Ok(
            PendingOpen {
                dir_fd,
                root_fd: resolved.root_fd,
                target: Target::new(dir, resolved.dir_relative),
                root_relative: resolved.root_relative,
                follow_symlinks,
                create,
                truncate,
                require_directory,
            },
        )
    }

    /// Decides on what the host found at the path. A creation is charged as
    /// soon as it is due.
    pub fn open_probed(&mut self, op: PendingOpen, reply: Result<HostMetadata, HostError>) -> (r:
        Result<ProbedOpen, FsError>)
        requires
            old(self).wf(),
            op.wf(),
        ensures
            final(self).wf(),
            final(self)@ == old(self)@.open_probe(op@, reply).0,
            match old(self)@.open_probe(op@, reply).1 {
                Ok(due) => r matches Ok(probed) && probed.wf() && probed@ == op@
                    && probed.creation_due() == due,
                Err(error) => r matches Err(e) && e@ == error,
            },
    {
        let metadata = match reply {
            Ok(metadata) => Some(metadata),
            Err(e) => {
                if e.kind != IoErrorKind::NotFound {
                    return Err(FsError::from_io(e));
                }
                None
            },
        };
        let (present, is_symlink, is_dir) = match metadata {
            Some(found) => (true, found.is_symlink, found.is_dir),
            None => (false, false, false),
        };
        if !present && !op.create {
            return Err(FsError::NoEntry);
        }
        if !op.follow_symlinks && is_symlink {
            return Err(FsError::SymlinkLoop);
        }
        if op.require_directory && !is_dir {
            return Err(FsError::NoEntry);
        }
        if op.truncate && is_dir {
            return Err(FsError::InvalidPath);
        }
        if let Err(e) = self.ensure_descriptor_capacity() {
            return Err(e);
        }
        if !present {
            if let Err(e) = self.charge_creation() {
                return Err(e);
            }
        }
        let create = !present || op.truncate;
        Ok(ProbedOpen { op, create })
    }

    /// Enters the opened path under a new descriptor. A directory comes with
    /// the host directory behind it, and grants what its parent grants.
    pub fn opened(&mut self, op: ConfirmedOpen, opened: Option<CapDir>) -> (r: Result<u32, FsError>)
        requires
            old(self).wf(),
            op.wf(),
            op@.fits(old(self)@),
            opened is Some <==> op.kind() is Directory,
        ensures
            final(self).wf(),
            final(self)@ == old(self)@.open_finish(op@, opened).0,
            outcome(r) == old(self)@.open_finish(op@, opened).1,
    {
        let request = op.op;
        let dir_perms = request.target.dir().perms();
        let file_perms = request.target.dir().file_perms();
        let (descriptor_type, directory) = match opened {
            Some(host) => (
                DescriptorType::Directory,
                Some(Dir::new(host, dir_perms, file_perms)),
            ),
            None => (DescriptorType::RegularFile, None),
        };
        let fd = match self.alloc_handle() {
            Ok(fd) => fd,
            Err(e) => return Err(e),
        };
        proof {
            request.root_relative.wf_is_safe();
            lemma_opened(old(self)@, op@.entry(opened));
        }
        self.descriptors.insert(
            fd,
            DescriptorEntry {
                root_fd: request.root_fd,
                relative_path: request.root_relative,
                descriptor_type,
                is_preopen: false,
                parent_fd: Some(request.dir_fd),
                directory,
            },
        );
        assert(self@ =~= old(self)@.opened(op@.entry(opened)));
        Ok(fd)
    }
}

} // verus!
