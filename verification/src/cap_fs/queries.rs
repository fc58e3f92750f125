//! What can be asked of a filesystem without asking the host.
use vstd::prelude::*;

use super::CapFs;
use crate::error::{outcome, FsError};
use crate::model::FsView;
use crate::perms::{DescriptorFlags, DescriptorType, Dir, DirPerms, FilePerms, MountLifetime};
use crate::table::keys_of;
use crate::text::same_text;

verus! {

broadcast use vstd::std_specs::btree::group_btree_axioms;

impl FsView {
    /// Whether `fd` is a file that was opened through `dir_fd` and has the
    /// given name.
    pub open spec fn is_file_in_dir(self, dir_fd: u32, name: Seq<char>, fd: u32) -> bool {
        &&& self.is_file(fd)
        &&& self.descriptors[fd].parent_fd == Some(dir_fd)
        &&& self.descriptors[fd].path.components.len() > 0
        &&& self.descriptors[fd].path.components.last() == name
    }

    /// Whether `found` is the lowest descriptor of a file that was opened through
    /// `dir_fd` and has the given name, or none where there is none.
    pub open spec fn is_found_in_dir(
        self,
        dir_fd: u32,
        name: Seq<char>,
        found: Option<u32>,
    ) -> bool {
        match found {
            Some(fd) => self.is_file_in_dir(dir_fd, name, fd) && forall|other: u32| #[trigger]
                self.is_file_in_dir(dir_fd, name, other) ==> fd <= other,
            None => forall|fd: u32| !#[trigger] self.is_file_in_dir(dir_fd, name, fd),
        }
    }

    /// What a descriptor grants.
    pub open spec fn flags_of(self, fd: u32) -> Option<DescriptorFlags> {
        if self.is_directory(fd) {
            let perms = self.descriptors[fd].directory->0.grants();
            Some(
                DescriptorFlags {
                    read: perms.reads(),
                    write: perms.mutates(),
                    mutate_directory: perms.mutates(),
                },
            )
        } else if self.is_file(fd) {
            let perms = self.root_of(fd).file_grants();
            Some(
                DescriptorFlags {
                    read: perms.reads(),
                    write: perms.writes(),
                    mutate_directory: false,
                },
            )
        } else {
            None
        }
    }
}

impl CapFs {
    pub fn is_directory(&self, fd: u32) -> (r: bool)
        ensures
            r == self@.is_directory(fd),
    {
        match self.descriptors.get(&fd) {
            Some(entry) => {
                assert(self@.descriptors[fd] == entry.model());
                entry.descriptor_type == DescriptorType::Directory
            },
            None => false,
        }
    }

    pub fn is_file(&self, fd: u32) -> (r: bool)
        ensures
            r == self@.is_file(fd),
    {
        match self.descriptors.get(&fd) {
            Some(entry) => {
                assert(self@.descriptors[fd] == entry.model());
                entry.descriptor_type == DescriptorType::RegularFile
            },
            None => false,
        }
    }

    /// The first mount, by descriptor, that a guest sees at `guest_path`.
    pub fn mount_by_guest_path(&self, guest_path: &str) -> (r: Option<u32>)
        ensures
            r == self@.mount_at(guest_path@),
    {
        let fds = keys_of(&self.preopen_dirs);
        let mut i: usize = 0;
        while i < fds.len()
            invariant
                0 <= i <= fds@.len(),
                fds@.to_set() == self.preopen_dirs@.dom(),
                forall|a: int, b: int| 0 <= a < b < fds@.len() ==> fds@[a] < fds@[b],
                forall|j: int|
                    0 <= j < fds@.len() ==> self.preopen_dirs@.contains_key(#[trigger] fds@[j]),
                forall|k: u32| #[trigger] self.preopen_dirs@.contains_key(k) ==> fds@.contains(k),
                forall|j: int|
                    0 <= j < i ==> self@.preopens[#[trigger] fds@[j]].guest_path != guest_path@,
            decreases fds@.len() - i,
        {
            let fd = fds[i];
            if let Some(entry) = self.preopen_dirs.get(&fd) {
                assert(self@.preopens[fd] == entry.model());
                if same_text(entry.guest_path.as_str(), guest_path) {
                    proof {
                        assert forall|other: u32| #[trigger]
                            self@.preopens.contains_key(other) && self@.preopens[other].guest_path
                                == guest_path@ implies fd <= other by {
                            assert(self.preopen_dirs@.contains_key(other));
                            assert(fds@.contains(other));
                            let j = choose|j: int| 0 <= j < fds@.len() && fds@[j] == other;
                            if j < i {
                                assert(self@.preopens[fds@[j]].guest_path != guest_path@);
                            }
                        }
                        assert(self@.is_first_mount(guest_path@, fd));
                        let chosen = choose|c: u32| self@.is_first_mount(guest_path@, c);
                        assert(self@.is_first_mount(guest_path@, chosen));
                        assert(chosen == fd);
                    }
                    return Some(fd);
                }
            }
            i += 1;
        }
        proof {
            assert forall|fd: u32| !self@.is_first_mount(guest_path@, fd) by {
                if self@.preopens.contains_key(fd) {
                    assert(self.preopen_dirs@.contains_key(fd));
                    assert(fds@.contains(fd));
                    let j = choose|j: int| 0 <= j < fds@.len() && fds@[j] == fd;
                    assert(self@.preopens[fds@[j]].guest_path != guest_path@);
                }
            }
        }
        None
    }

    /// Find a preopened directory by its guest-visible path.
    pub fn dir_by_guest_path(&self, guest_path: &str) -> (r: Option<&Dir>)
        ensures
            match self@.mount_at(guest_path@) {
                Some(fd) => self@.preopens.contains_key(fd) && r == Some(&self@.preopens[fd].dir),
                None => r is None,
            },
    {
        match self.mount_by_guest_path(guest_path) {
            Some(fd) => {
                assert(self@.is_first_mount(guest_path@, fd));
                self.root_dir(fd)
            },
            None => None,
        }
    }

    /// Whether a mounted directory keeps its contents from one run to the next.
    pub fn mount_lifetime(&self, fd: u32) -> (r: Option<MountLifetime>)
        ensures
            r == if self@.preopens.contains_key(fd) {
                Some(self@.preopens[fd].lifetime)
            } else {
                None::<MountLifetime>
            },
    {
        match self.preopen_dirs.get(&fd) {
            Some(entry) => Some(entry.lifetime),
            None => None,
        }
    }

    /// Find an open file by the directory descriptor it was opened through and
    /// its name. Where several match, the one with the lowest descriptor is
    /// found.
    pub fn find_file_in_dir(&self, dir_fd: u32, name: &str) -> (r: Option<u32>)
        ensures
            self@.is_found_in_dir(dir_fd, name@, r),
    {
        let fds = keys_of(&self.descriptors);
        let mut i: usize = 0;
        while i < fds.len()
            invariant
                0 <= i <= fds@.len(),
                forall|a: int, b: int| 0 <= a < b < fds@.len() ==> fds@[a] < fds@[b],
                forall|j: int|
                    0 <= j < fds@.len() ==> self.descriptors@.contains_key(#[trigger] fds@[j]),
                forall|k: u32| #[trigger] self.descriptors@.contains_key(k) ==> fds@.contains(k),
                forall|j: int|
                    0 <= j < i ==> !self@.is_file_in_dir(dir_fd, name@, #[trigger] fds@[j]),
            decreases fds@.len() - i,
        {
            let fd = fds[i];
            if let Some(entry) = self.descriptors.get(&fd) {
                assert(self@.descriptors[fd] == entry.model());
                if entry.descriptor_type == DescriptorType::RegularFile {
                    if let Some(parent) = entry.parent_fd {
                        if parent == dir_fd && entry.relative_path.is_named(name) {
                            proof {
                                assert forall|other: u32| #[trigger]
                                    self@.is_file_in_dir(dir_fd, name@, other) implies fd
                                    <= other by {
                                    assert(self.descriptors@.contains_key(other));
                                    assert(fds@.contains(other));
                                    let j = choose|j: int| 0 <= j < fds@.len() && fds@[j] == other;
                                    if j < i {
                                        assert(!self@.is_file_in_dir(dir_fd, name@, fds@[j]));
                                    }
                                }
                            }
                            return Some(fd);
                        }
                    }
                }
            }
            i += 1;
        }
        proof {
            assert forall|fd: u32| !#[trigger] self@.is_file_in_dir(dir_fd, name@, fd) by {
                if self@.descriptors.contains_key(fd) {
                    assert(self.descriptors@.contains_key(fd));
                    assert(fds@.contains(fd));
                    let j = choose|j: int| 0 <= j < fds@.len() && fds@[j] == fd;
                    assert(!self@.is_file_in_dir(dir_fd, name@, fds@[j]));
                }
            }
        }
        None
    }

    /// Return the parent directory fd for an open file.
    pub fn file_dir_fd(&self, fd: u32) -> (r: Option<u32>)
        ensures
            r == if self@.is_file(fd) {
                self@.descriptors[fd].parent_fd
            } else {
                None::<u32>
            },
    {
        match self.descriptors.get(&fd) {
            Some(entry) => {
                assert(self@.descriptors[fd] == entry.model());
                if entry.descriptor_type == DescriptorType::RegularFile {
                    entry.parent_fd
                } else {
                    None
                }
            },
            None => None,
        }
    }

    /// Check if a file's mount grants the given file permissions.
    pub fn file_has_perms(&self, fd: u32, perms: FilePerms) -> (r: bool)
        requires
            self.wf(),
        ensures
            r == self@.file_grants(fd, perms),
    {
        match self.file_parts(fd) {
            Ok((root, _)) => root.file_perms().contains(perms),
            Err(_) => false,
        }
    }

    /// Get the type of a descriptor (directory or file).
    pub fn get_type(&self, fd: u32) -> (r: Result<DescriptorType, FsError>)
        ensures
            outcome(r) == if self@.is_directory(fd) {
                Ok::<_, FsError<Seq<char>>>(DescriptorType::Directory)
            } else if self@.is_file(fd) {
                Ok(DescriptorType::RegularFile)
            } else {
                Err(FsError::BadDescriptor)
            },
    {
        if self.is_directory(fd) {
            Ok(DescriptorType::Directory)
        } else if self.is_file(fd) {
            Ok(DescriptorType::RegularFile)
        } else {
            Err(FsError::BadDescriptor)
        }
    }

    /// Get the effective permission flags for a descriptor.
    pub fn get_flags(&self, fd: u32) -> (r: Result<DescriptorFlags, FsError>)
        requires
            self.wf(),
        ensures
            outcome(r) == match self@.flags_of(fd) {
                Some(flags) => Ok::<_, FsError<Seq<char>>>(flags),
                None => Err(FsError::BadDescriptor),
            },
    {
        if self.is_directory(fd) {
            assert(self@.descriptor_ok(fd));
            match self.get_dir(fd) {
                Some(dir) => Ok(
                    DescriptorFlags {
                        read: dir.perms().contains(DirPerms::READ),
                        write: dir.perms().contains(DirPerms::MUTATE),
                        mutate_directory: dir.perms().contains(DirPerms::MUTATE),
                    },
                ),
                None => Err(FsError::BadDescriptor),
            }
        } else {
            match self.file_parts(fd) {
                Ok((root, _)) => Ok(
                    DescriptorFlags {
                        read: root.file_perms().contains(FilePerms::READ),
                        write: root.file_perms().contains(FilePerms::WRITE),
                        mutate_directory: false,
                    },
                ),
                Err(e) => Err(e),
            }
        }
    }

    /// Return the preopens, in ascending order of their descriptors.
    pub fn preopens(&self) -> (r: Vec<(u32, &str)>)
        ensures
            r@.len() == self@.preopens.len(),
            forall|i: int, j: int| 0 <= i < j < r@.len() ==> r@[i].0 < r@[j].0,
            forall|i: int|
                0 <= i < r@.len() ==> self@.preopens.contains_key((#[trigger] r@[i]).0)
                    && r@[i].1@ == self@.preopens[r@[i].0].guest_path,
            forall|fd: u32| #[trigger]
                self@.preopens.contains_key(fd) ==> exists|i: int|
                    0 <= i < r@.len() && (#[trigger] r@[i]).0 == fd,
    {
        let fds = keys_of(&self.preopen_dirs);
        let mut r: Vec<(u32, &str)> = Vec::new();
        let mut i: usize = 0;
        while i < fds.len()
            invariant
                0 <= i <= fds@.len(),
                r@.len() == i,
                forall|j: int|
                    0 <= j < fds@.len() ==> self.preopen_dirs@.contains_key(#[trigger] fds@[j]),
                forall|j: int|
                    0 <= j < i ==> (#[trigger] r@[j]).0 == fds@[j] && r@[j].1@
                        == self@.preopens[fds@[j]].guest_path,
            decreases fds@.len() - i,
        {
            let fd = fds[i];
            assert(self.preopen_dirs@.contains_key(fds@[i as int]));
            if let Some(entry) = self.preopen_dirs.get(&fd) {
                assert(self@.preopens[fd] == entry.model());
                r.push((fd, entry.guest_path.as_str()));
            }
            i += 1;
        }
        proof {
            assert(self@.preopens.dom() =~= self.preopen_dirs@.dom());
            assert forall|fd: u32| #[trigger] self@.preopens.contains_key(fd) implies exists|j: int|
                0 <= j < r@.len() && (#[trigger] r@[j]).0 == fd by {
                assert(self.preopen_dirs@.contains_key(fd));
                assert(fds@.contains(fd));
                let j = choose|j: int| 0 <= j < fds@.len() && fds@[j] == fd;
                assert(r@[j].0 == fd);
            }
        }
        r
    }

    pub fn has_stream(&self, id: u32) -> (r: bool)
        ensures
            r == self@.streams.contains_key(id),
    {
        self.streams.contains_key(&id)
    }

    pub fn is_write_stream(&self, id: u32) -> (r: bool)
        ensures
            r == (self@.streams.contains_key(id) && self@.streams[id].is_write),
    {
        match self.streams.get(&id) {
            Some(stream) => stream.is_write,
            None => false,
        }
    }

    pub fn has_dir_stream(&self, id: u32) -> (r: bool)
        ensures
            r == self@.dir_streams.contains_key(id),
    {
        self.dir_streams.contains_key(&id)
    }
}

/// The mounts are told in ascending order of their numbers, each once and with
/// the path that a guest sees.
pub proof fn law_mounts_are_told(fs: CapFs, r: Vec<(u32, &str)>, fd: u32, i: int, j: int)
    requires
        call_ensures(CapFs::preopens, (&fs,), r),
    ensures
        r@.len() == fs@.preopens.len(),
        0 <= i < j < r@.len() ==> r@[i].0 < r@[j].0,
        0 <= i < r@.len() ==> fs@.preopens.contains_key(r@[i].0) && fs@.preopens[r@[i].0].guest_path
            == r@[i].1@,
{
}

} // verus!
