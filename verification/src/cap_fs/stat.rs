//! Metadata of open descriptors and of paths.
use vstd::prelude::*;

use super::target::TargetView;
use super::{CapFs, Target};
use crate::error::{outcome, FsError, FsErrorView, HostError};
use crate::model::FsView;
use crate::perms::{DescriptorStat, DescriptorType, DirPerms, HostMetadata, PathFlags};

verus! {

/// A checked request for the metadata of a path.
#[verifier::ext_equal]
pub struct StatView {
    pub target: TargetView,
    pub follows: bool,
}

impl StatView {
    /// The metadata that is reported for what the host found.
    pub open spec fn report(self, reply: Result<HostMetadata, HostError>) -> Result<
        DescriptorStat,
        FsErrorView,
    > {
        match reply {
            Err(e) => Err(e.classify()),
            Ok(found) => if self.target.path.requires_directory && !found.is_dir {
                Err(FsError::InvalidPath)
            } else {
                Ok(
                    DescriptorStat {
                        descriptor_type: if found.is_dir {
                            DescriptorType::Directory
                        } else if found.is_symlink {
                            DescriptorType::SymbolicLink
                        } else {
                            DescriptorType::RegularFile
                        },
                        size: found.len,
                    },
                )
            },
        }
    }
}

impl FsView {
    /// Checks a request for the metadata of a path. The directory has to be
    /// one that may be read.
    pub open spec fn stat_request(self, dir_fd: u32, path: Seq<char>, path_flags: PathFlags) -> Result<
        StatView,
        FsErrorView,
    > {
        match self.resolved(dir_fd, path) {
            Err(e) => Err(e),
            Ok(at) => {
                let dir = self.descriptors[dir_fd].directory->0;
                if !dir.grants().reads() {
                    Err(FsError::NotPermitted)
                } else {
                    Ok(
                        StatView {
                            target: TargetView { dir, path: at.dir_relative },
                            follows: path_flags.follows(),
                        },
                    )
                }
            },
        }
    }

    /// Where the host finds an open file: the path below its mount.
    pub open spec fn file_target(self, fd: u32) -> TargetView {
        TargetView { dir: self.root_of(fd), path: self.descriptors[fd].path }
    }
}

/// A request for the metadata of a path. The host is to look the path up.
pub struct PendingStat {
    target: Target,
    follow_symlinks: bool,
}

impl View for PendingStat {
    type V = StatView;

    closed spec fn view(&self) -> StatView {
        StatView { target: self.target@, follows: self.follow_symlinks }
    }
}

impl PendingStat {
    pub closed spec fn wf(self) -> bool {
        self.target.wf()
    }

    /// What the host is to look up.
    pub fn target(&self) -> (r: &Target)
        requires
            self.wf(),
        ensures
            r.wf(),
            r@ == self@.target,
    {
        &self.target
    }

    /// Whether a final symbolic link is followed.
    pub fn follows_symlinks(&self) -> (r: bool)
        ensures
            r == self@.follows,
    {
        self.follow_symlinks
    }

    /// Reports on what the host found.
    pub fn replied(self, reply: Result<HostMetadata, HostError>) -> (r: Result<
        DescriptorStat,
        FsError,
    >)
        ensures
            outcome(r) == self@.report(reply),
    {
        let metadata = match reply {
            Ok(metadata) => metadata,
            Err(e) => return Err(FsError::from_io(e)),
        };
        if self.target.requires_directory() && !metadata.is_dir {
            return Err(FsError::InvalidPath);
        }
        let descriptor_type = if metadata.is_dir {
            DescriptorType::Directory
        } else if metadata.is_symlink {
            DescriptorType::SymbolicLink
        } else {
            DescriptorType::RegularFile
        };
        Ok(DescriptorStat { descriptor_type, size: metadata.len })
    }
}

/// How the metadata of an open descriptor is found.
pub enum StatQuery {
    /// It is known already.
    Known(DescriptorStat),
    /// The host is to look the file up; [`stat_replied`] reports on it.
    Ask(Target),
}

/// The size of an open file, by what the host found at its path.
pub fn file_size_replied(reply: Result<HostMetadata, HostError>) -> (r: Option<u64>)
    ensures
        r == match reply {
            Ok(found) => Some(found.len),
            Err(_) => None::<u64>,
        },
{
    match reply {
        Ok(metadata) => Some(metadata.len),
        Err(_) => None,
    }
}

/// The metadata of an open file, by what the host found at its path. A file
/// that the host cannot find is no longer a valid descriptor.
pub fn stat_replied(reply: Result<HostMetadata, HostError>) -> (r: Result<DescriptorStat, FsError>)
    ensures
        outcome(r) == match reply {
            Ok(found) => Ok::<_, FsErrorView>(
                DescriptorStat { descriptor_type: DescriptorType::RegularFile, size: found.len },
            ),
            Err(_) => Err(FsErrorView::BadDescriptor),
        },
{
    match file_size_replied(reply) {
        Some(size) => Ok(DescriptorStat { descriptor_type: DescriptorType::RegularFile, size }),
        None => Err(FsError::BadDescriptor),
    }
}

impl CapFs {
    /// Asks for the size of an open file. The host is to look it up;
    /// [`file_size_replied`] gives its size. Anything but a file has none.
    pub fn file_size(&self, fd: u32) -> (r: Option<Target>)
        requires
            self.wf(),
        ensures
            if self@.is_file(fd) {
                r matches Some(target) && target.wf() && target@ == self@.file_target(fd)
            } else {
                r is None
            },
    {
        match self.file_parts(fd) {
            Ok((root, path)) => Some(Target::new(root.clone(), path.clone())),
            Err(_) => None,
        }
    }

    /// Asks for the metadata of an open descriptor.
    pub fn stat(&self, fd: u32) -> (r: Result<StatQuery, FsError>)
        requires
            self.wf(),
        ensures
            if self@.is_directory(fd) {
                r == Ok::<_, FsError>(
                    StatQuery::Known(
                        (DescriptorStat { descriptor_type: DescriptorType::Directory, size: 0 }),
                    ),
                )
            } else if self@.is_file(fd) {
                r matches Ok(StatQuery::Ask(target)) && target.wf() && target@ == self@.file_target(
                    fd,
                )
            } else {
                r matches Err(e) && e@ == FsErrorView::BadDescriptor
            },
    {
        if self.is_directory(fd) {
            return Ok(
                StatQuery::Known(
                    DescriptorStat { descriptor_type: DescriptorType::Directory, size: 0 },
                ),
            );
        }
        match self.file_size(fd) {
            Some(target) => Ok(StatQuery::Ask(target)),
            None => Err(FsError::BadDescriptor),
        }
    }

    /// Asks for the metadata of a path relative to a directory descriptor,
    /// following a final symbolic link.
    pub fn stat_at(&self, dir_fd: u32, path: &str) -> (r: Result<PendingStat, FsError>)
        requires
            self.wf(),
        ensures
            match self@.stat_request(dir_fd, path@, PathFlags::SYMLINK_FOLLOW) {
                Ok(view) => r matches Ok(op) && op.wf() && op@ == view,
                Err(error) => r matches Err(e) && e@ == error,
            },
    {
        self.stat_at_with_path_flags(dir_fd, path, PathFlags::SYMLINK_FOLLOW)
    }

    /// Asks for the metadata of a validated path relative to a directory
    /// descriptor.
    pub fn stat_at_with_path_flags(&self, dir_fd: u32, path: &str, path_flags: PathFlags) -> (r:
        Result<PendingStat, FsError>)
        requires
            self.wf(),
        ensures
            match self@.stat_request(dir_fd, path@, path_flags) {
                Ok(view) => r matches Ok(op) && op.wf() && op@ == view,
                Err(error) => r matches Err(e) && e@ == error,
            },
    {
        let resolved = match self.resolve_at(dir_fd, path) {
            Ok(resolved) => resolved,
            Err(e) => return Err(e),
        };
        assert(self@.descriptor_ok(dir_fd));
        let dir = match self.get_dir(dir_fd) {
            Some(dir) => dir.clone(),
            None => return Err(FsError::BadDescriptor),
        };
        if !dir.perms().contains(DirPerms::READ) {
            return Err(FsError::NotPermitted);
        }
        Ok(
            PendingStat {
                target: Target::new(dir, resolved.dir_relative),
                follow_symlinks: path_flags.contains(PathFlags::SYMLINK_FOLLOW),
            },
        )
    }
}

} // verus!
