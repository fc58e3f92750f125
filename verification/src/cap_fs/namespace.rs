//! Changes to the names of a mount, and closing what was opened.
//!
//! File descriptors are path-backed rather than open host file handles.
//! Keeping them alive after a name has gone could make a descriptor refer to a
//! different object. So a successful removal or rename drops every opened
//! descriptor at the affected path and below it, together with its streams;
//! the guest has to reopen the path.
use vstd::prelude::*;

use super::target::TargetView;
use super::{CapFs, Target};
use crate::error::{checked, host_outcome, outcome, FsError, FsErrorView, HostError};
use crate::guest_path::{GuestRelativePath, PathView};
use crate::model::{lemma_fewer_streams, FsView};
use crate::perms::HostMetadata;

verus! {

broadcast use vstd::std_specs::btree::group_btree_axioms;

/// A checked request to change what a name stands for.
#[verifier::ext_equal]
pub struct ChangeView {
    pub root_fd: u32,
    pub target: TargetView,
    pub root_path: PathView,
}

impl FsView {
    /// Checks a request to change what `path` stands for. The directory has to
    /// be one that may be changed.
    pub open spec fn change_request(self, dir_fd: u32, path: Seq<char>) -> Result<
        ChangeView,
        FsErrorView,
    > {
        match self.resolved(dir_fd, path) {
            Err(e) => Err(e),
            Ok(at) => {
                let dir = self.descriptors[dir_fd].directory->0;
                if !dir.grants().mutates() {
                    Err(FsError::NotPermitted)
                } else {
                    Ok(
                        ChangeView {
                            root_fd: at.root_fd,
                            target: TargetView { dir, path: at.dir_relative },
                            root_path: at.root_relative,
                        },
                    )
                }
            },
        }
    }

    /// The state after the name of a change is gone.
    pub open spec fn name_gone(self, op: ChangeView) -> FsView {
        self.without(self.subtree(op.root_fd, op.root_path))
    }

    /// Checks a request to rename. Both paths are checked before either
    /// directory is, and mounts are never crossed.
    pub open spec fn rename_request(
        self,
        old_dir_fd: u32,
        old_path: Seq<char>,
        new_dir_fd: u32,
        new_path: Seq<char>,
    ) -> Result<(ChangeView, ChangeView), FsErrorView> {
        match (self.resolved(old_dir_fd, old_path), self.resolved(new_dir_fd, new_path)) {
            (Err(e), _) => Err(e),
            (_, Err(e)) => Err(e),
            _ => match (
                self.change_request(old_dir_fd, old_path),
                self.change_request(new_dir_fd, new_path),
            ) {
                (Err(e), _) => Err(e),
                (_, Err(e)) => Err(e),
                (Ok(source), Ok(destination)) => if source.root_fd != destination.root_fd {
                    Err(FsError::CrossDevice)
                } else {
                    Ok((source, destination))
                },
            },
        }
    }

    /// The state after a rename. A rename of a path to itself changes nothing.
    pub open spec fn name_moved(self, source: ChangeView, destination: ChangeView) -> FsView {
        if source.root_path.components == destination.root_path.components {
            self
        } else {
            self.without(
                self.subtree(source.root_fd, source.root_path).union(
                    self.subtree(destination.root_fd, destination.root_path),
                ),
            )
        }
    }

    /// The state after a descriptor was closed, or why it cannot be.
    pub open spec fn close(self, fd: u32) -> Result<FsView, FsErrorView> {
        if !self.descriptors.contains_key(fd) {
            Err(FsError::BadDescriptor)
        } else if self.descriptors[fd].is_preopen {
            Err(FsError::NotPermitted)
        } else {
            Ok(self.without(set![fd]))
        }
    }
}

/// A request to remove a name. The host is to remove it.
pub struct Removal {
    root_fd: u32,
    target: Target,
    root_relative: GuestRelativePath,
}

impl View for Removal {
    type V = ChangeView;

    closed spec fn view(&self) -> ChangeView {
        ChangeView {
            root_fd: self.root_fd,
            target: self.target@,
            root_path: self.root_relative@,
        }
    }
}

impl Removal {
    pub closed spec fn wf(self) -> bool {
        self.target.wf() && self.root_relative.wf()
    }

    /// What the host is to remove.
    pub fn target(&self) -> (r: &Target)
        requires
            self.wf(),
        ensures
            r.wf(),
            r@ == self@.target,
    {
        &self.target
    }
}

/// What is due to unlink a path.
pub enum Unlink {
    /// The host is to remove the entry, without following a final symbolic
    /// link.
    Remove(Removal),
    /// The path can only name a directory, which is never unlinked. The host
    /// is to look it up, and [`unlink_refused`] says why it stays.
    Refuse(Target),
}

/// The error for a path that can only name a directory.
pub open spec fn unlink_refusal(reply: Result<HostMetadata, HostError>) -> FsErrorView {
    match reply {
        Err(e) => e.classify(),
        Ok(found) => if found.is_dir {
            FsError::IsDirectory
        } else {
            FsError::NotDirectory
        },
    }
}

/// The error for a path that can only name a directory, by what the host found
/// there.
pub fn unlink_refused(reply: Result<HostMetadata, HostError>) -> (r: FsError)
    ensures
        r@ == unlink_refusal(reply),
{
    match reply {
        Ok(metadata) => {
            if metadata.is_dir {
                FsError::IsDirectory
            } else {
                FsError::NotDirectory
            }
        },
        Err(e) => FsError::from_io(e),
    }
}

/// What the host is to do next for a rename.
#[derive(Debug, Clone, Copy, PartialEq, Eq, Structural)]
pub enum RenameStage {
    /// Look the source up, not following a final symbolic link.
    ProbeSource,
    /// Look the destination up, not following a final symbolic link.
    ProbeDestination,
    /// Rename the source to the destination.
    Move,
}

/// A rename, in the form that contracts use.
#[verifier::ext_equal]
pub struct RenameView {
    pub source: ChangeView,
    pub destination: ChangeView,
    pub stage: RenameStage,
}

impl RenameView {
    /// Decides on what the host found: what is due next, or why the rename
    /// fails.
    pub open spec fn probe(self, reply: Result<HostMetadata, HostError>) -> Result<
        RenameStage,
        FsErrorView,
    > {
        let wanted = if self.stage is ProbeSource {
            self.source.target.path
        } else {
            self.destination.target.path
        };
        match reply {
            Err(e) => Err(e.classify()),
            Ok(found) => if wanted.requires_directory && !found.is_dir {
                Err(FsError::NotDirectory)
            } else if self.stage is ProbeSource
                && self.destination.target.path.requires_directory {
                Ok(RenameStage::ProbeDestination)
            } else {
                Ok(RenameStage::Move)
            },
        }
    }
}

/// A request to rename.
pub struct Rename {
    source: Removal,
    destination: Removal,
    stage: RenameStage,
}

impl View for Rename {
    type V = RenameView;

    closed spec fn view(&self) -> RenameView {
        RenameView {
            source: self.source@,
            destination: self.destination@,
            stage: self.stage,
        }
    }
}

impl Rename {
    pub closed spec fn wf(self) -> bool {
        self.source.wf() && self.destination.wf()
    }

    /// What the host is to do next.
    pub fn stage(&self) -> (r: RenameStage)
        ensures
            r == self@.stage,
    {
        self.stage
    }

    /// The name that goes away.
    pub fn source(&self) -> (r: &Target)
        requires
            self.wf(),
        ensures
            r.wf(),
            r@ == self@.source.target,
    {
        &self.source.target
    }

    /// The name that it gets.
    pub fn destination(&self) -> (r: &Target)
        requires
            self.wf(),
        ensures
            r.wf(),
            r@ == self@.destination.target,
    {
        &self.destination.target
    }

    /// Decides on what the host found at the path that it looked up.
    pub fn probed(self, reply: Result<HostMetadata, HostError>) -> (r: Result<Rename, FsError>)
        requires
            self.wf(),
            self@.stage !is Move,
        ensures
            match self@.probe(reply) {
                Ok(stage) => r matches Ok(op) && op.wf() && op@ == (RenameView { stage, ..self@ }),
                Err(error) => r matches Err(e) && e@ == error,
            },
    {
        let metadata = match reply {
            Ok(metadata) => metadata,
            Err(e) => return Err(FsError::from_io(e)),
        };
        let at_source = self.stage == RenameStage::ProbeSource;
        let new_is_directory = self.destination.target.requires_directory();
        let wants_directory = if at_source {
            self.source.target.requires_directory()
        } else {
            new_is_directory
        };
        if wants_directory && !metadata.is_dir {
            return Err(FsError::NotDirectory);
        }
        let stage = if at_source && new_is_directory {
            RenameStage::ProbeDestination
        } else {
            RenameStage::Move
        };
        Ok(Rename { source: self.source, destination: self.destination, stage })
    }
}

impl CapFs {
    /// Checks a request to change what a path stands for.
    fn change_at(&self, dir_fd: u32, path: &str) -> (r: Result<Removal, FsError>)
        requires
            self.wf(),
        ensures
            match self@.change_request(dir_fd, path@) {
                Ok(view) => r matches Ok(op) && op.wf() && op@ == view,
                Err(error) => r matches Err(e) && e@ == error,
            },
    {
        let resolved = match self.resolve_at(dir_fd, path) {
            Ok(resolved) => resolved,
            Err(e) => return Err(e),
        };
        assert(self@.descriptor_ok(dir_fd));
        let dir = match self.mutating_dir(dir_fd) {
            Ok(dir) => dir,
            Err(e) => return Err(e),
        };
        Ok(
            Removal {
                root_fd: resolved.root_fd,
                target: Target::new(dir, resolved.dir_relative),
                root_relative: resolved.root_relative,
            },
        )
    }

    /// Asks to create one directory relative to an opened directory
    /// descriptor. The creation is charged, and the host is to create it.
    ///
    /// This is intentionally non-recursive: every parent component must
    /// already exist.
    pub fn create_directory_at(&mut self, dir_fd: u32, path: &str) -> (r: Result<Target, FsError>)
        requires
            old(self).wf(),
        ensures
            final(self).wf(),
            match old(self)@.change_request(dir_fd, path@) {
                Ok(op) => match old(self)@.creation_charged() {
                    Some(after) => (r matches Ok(target) && target.wf() && target@ == op.target)
                        && final(self)@ == after,
                    None => (r matches Err(e) && e@ == FsErrorView::Quota) && final(self)@
                        == old(self)@,
                },
                Err(error) => (r matches Err(e) && e@ == error) && final(self)@ == old(self)@,
            },
    {
        let op = match self.change_at(dir_fd, path) {
            Ok(op) => op,
            Err(e) => return Err(e),
        };
        if let Err(e) = self.charge_creation() {
            return Err(e);
        }
        Ok(op.target)
    }

    /// Asks to remove an empty directory relative to an opened directory
    /// descriptor.
    pub fn remove_directory_at(&self, dir_fd: u32, path: &str) -> (r: Result<Removal, FsError>)
        requires
            self.wf(),
        ensures
            match self@.change_request(dir_fd, path@) {
                Ok(view) => r matches Ok(op) && op.wf() && op@ == view,
                Err(error) => r matches Err(e) && e@ == error,
            },
    {
        self.change_at(dir_fd, path)
    }

    /// Asks to unlink a non-directory entry without following the final
    /// symlink. Normalization removes a trailing slash, so its directory
    /// requirement is kept in mind instead of unlinking `file/` by accident.
    pub fn unlink_file_at(&self, dir_fd: u32, path: &str) -> (r: Result<Unlink, FsError>)
        requires
            self.wf(),
        ensures
            match self@.change_request(dir_fd, path@) {
                Ok(view) => if view.target.path.requires_directory {
                    r matches Ok(Unlink::Refuse(target)) && target.wf() && target@ == view.target
                } else {
                    r matches Ok(Unlink::Remove(op)) && op.wf() && op@ == view
                },
                Err(error) => r matches Err(e) && e@ == error,
            },
    {
        let op = match self.change_at(dir_fd, path) {
            Ok(op) => op,
            Err(e) => return Err(e),
        };
        if op.target.requires_directory() {
            Ok(Unlink::Refuse(op.target))
        } else {
            Ok(Unlink::Remove(op))
        }
    }

    /// Concludes a removal by what the host replied.
    pub fn removed(&mut self, op: Removal, reply: Result<(), HostError>) -> (r: Result<(), FsError>)
        requires
            old(self).wf(),
            op.wf(),
        ensures
            final(self).wf(),
            outcome(r) == host_outcome(reply),
            final(self)@ == if reply is Ok {
                old(self)@.name_gone(op@)
            } else {
                old(self)@
            },
    {
        if let Err(e) = checked(reply) {
            return Err(e);
        }
        let invalidated = self.descriptors_in_subtree(op.root_fd, &op.root_relative);
        proof {
            assert forall|fd: u32| #[trigger] invalidated@.contains(
                fd,
            ) implies !self@.preopens.contains_key(fd) by {
                assert(invalidated@.to_set().contains(fd));
                assert(self@.descriptor_ok(fd));
            }
        }
        self.invalidate_descriptors(&invalidated);
        Ok(())
    }

    /// Asks to rename a file, symlink, or directory between two opened
    /// directories.
    ///
    /// Both descriptors must grant directory mutation rights. Renames may
    /// cross opened directory descriptors within one preopen, but never cross
    /// preopen capability roots. This avoids transferring path-backed open
    /// descriptors into a capability with different rights.
    pub fn rename_at(
        &self,
        old_dir_fd: u32,
        old_path: &str,
        new_dir_fd: u32,
        new_path: &str,
    ) -> (r: Result<Rename, FsError>)
        requires
            self.wf(),
        ensures
            match self@.rename_request(old_dir_fd, old_path@, new_dir_fd, new_path@) {
                Ok((source, destination)) => r matches Ok(op) && op.wf() && op@ == (RenameView {
                    source,
                    destination,
                    stage: RenameStage::ProbeSource,
                }),
                Err(error) => r matches Err(e) && e@ == error,
            },
    {
        if let Err(e) = self.resolve_at(old_dir_fd, old_path) {
            return Err(e);
        }
        if let Err(e) = self.resolve_at(new_dir_fd, new_path) {
            return Err(e);
        }
        let source = match self.change_at(old_dir_fd, old_path) {
            Ok(op) => op,
            Err(e) => return Err(e),
        };
        let destination = match self.change_at(new_dir_fd, new_path) {
            Ok(op) => op,
            Err(e) => return Err(e),
        };
        if source.root_fd != destination.root_fd {
            return Err(FsError::CrossDevice);
        }
        Ok(Rename { source, destination, stage: RenameStage::ProbeSource })
    }

    /// Concludes a rename by what the host replied. A successful rename drops
    /// every opened descriptor and stream rooted at either the old or the
    /// replaced destination path.
    pub fn renamed(&mut self, op: Rename, reply: Result<(), HostError>) -> (r: Result<(), FsError>)
        requires
            old(self).wf(),
            op.wf(),
            op@.stage is Move,
        ensures
            final(self).wf(),
            outcome(r) == host_outcome(reply),
            final(self)@ == if reply is Ok {
                old(self)@.name_moved(op@.source, op@.destination)
            } else {
                old(self)@
            },
    {
        if let Err(e) = checked(reply) {
            return Err(e);
        }
        let source = op.source;
        let destination = op.destination;
        if source.root_relative.same_components(&destination.root_relative) {
            return Ok(());
        }
        let mut invalidated = self.descriptors_in_subtree(source.root_fd, &source.root_relative);
        let mut replaced = self.descriptors_in_subtree(
            destination.root_fd,
            &destination.root_relative,
        );
        let ghost moved_fds = invalidated@;
        let ghost replaced_fds = replaced@;
        invalidated.append(&mut replaced);
        proof {
            assert(invalidated@ == moved_fds + replaced_fds);
            assert forall|fd: u32| #[trigger]
                invalidated@.contains(fd) <==> moved_fds.contains(fd) || replaced_fds.contains(
                    fd,
                ) by {
                if moved_fds.contains(fd) {
                    let i = choose|i: int| 0 <= i < moved_fds.len() && moved_fds[i] == fd;
                    assert(invalidated@[i] == fd);
                }
                if replaced_fds.contains(fd) {
                    let i = choose|i: int| 0 <= i < replaced_fds.len() && replaced_fds[i] == fd;
                    assert(invalidated@[moved_fds.len() + i] == fd);
                }
            }
            assert(invalidated@.to_set() =~= moved_fds.to_set().union(replaced_fds.to_set()));
            assert forall|fd: u32| #[trigger] invalidated@.contains(
                fd,
            ) implies !self@.preopens.contains_key(fd) by {
                assert(moved_fds.to_set().contains(fd) || replaced_fds.to_set().contains(fd));
                assert(self@.descriptor_ok(fd));
            }
        }
        self.invalidate_descriptors(&invalidated);
        Ok(())
    }

    /// Close an opened descendant descriptor and any streams derived from it.
    ///
    /// Preopen descriptors are owned by the filesystem and cannot be closed
    /// through this method. Descendants of a closed directory remain valid:
    /// each descriptor retains its own root-relative identity/capability.
    pub fn close_descriptor(&mut self, fd: u32) -> (r: Result<(), FsError>)
        requires
            old(self).wf(),
        ensures
            final(self).wf(),
            match old(self)@.close(fd) {
                Ok(after) => r is Ok && final(self)@ == after,
                Err(error) => outcome(r) == Err::<(), _>(error) && final(self)@ == old(self)@,
            },
    {
        match self.descriptors.get(&fd) {
            Some(entry) => {
                assert(self@.descriptors[fd] == entry.model());
                assert(self@.descriptor_ok(fd));
                if entry.is_preopen {
                    return Err(FsError::NotPermitted);
                }
            },
            None => return Err(FsError::BadDescriptor),
        }
        let mut closed: Vec<u32> = Vec::new();
        closed.push(fd);
        proof {
            assert forall|x: u32| #[trigger] closed@.contains(x) <==> x == fd by {
                assert(closed@[0] == fd);
            }
            assert(closed@.to_set() =~= set![fd]);
        }
        self.invalidate_descriptors(&closed);
        Ok(())
    }

    /// Close an open file or directory handle, freeing the descriptor.
    /// Anything else stays as it is.
    pub fn close_file(&mut self, fd: u32)
        requires
            old(self).wf(),
        ensures
            final(self).wf(),
            final(self)@ == match old(self)@.close(fd) {
                Ok(after) => after,
                Err(_) => old(self)@,
            },
    {
        let _ = self.close_descriptor(fd);
    }

    /// Close a stream handle, freeing the descriptor.
    pub fn close_stream(&mut self, stream_id: u32)
        requires
            old(self).wf(),
        ensures
            final(self).wf(),
            final(self)@ == (FsView {
                streams: old(self)@.streams.remove(stream_id),
                ..old(self)@
            }),
    {
        self.streams.remove(&stream_id);
        proof {
            let after = FsView { streams: old(self)@.streams.remove(stream_id), ..old(self)@ };
            assert(self@ =~= after);
            lemma_fewer_streams(old(self)@, after);
        }
    }

    /// Close a directory stream handle, freeing the descriptor.
    pub fn close_dir_stream(&mut self, stream_id: u32)
        requires
            old(self).wf(),
        ensures
            final(self).wf(),
            final(self)@ == (FsView {
                dir_streams: old(self)@.dir_streams.remove(stream_id),
                ..old(self)@
            }),
    {
        self.dir_streams.remove(&stream_id);
        proof {
            let after = FsView {
                dir_streams: old(self)@.dir_streams.remove(stream_id),
                ..old(self)@
            };
            assert(self@ =~= after);
            lemma_fewer_streams(old(self)@, after);
        }
    }
}

} // verus!
