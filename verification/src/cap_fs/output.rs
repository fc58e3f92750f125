//! What the host itself reads and writes by guest path.
use vstd::prelude::*;

use super::files::{least, smaller};
use super::target::TargetView;
use super::{CapFs, Target};
use crate::error::{mount_point, mount_point_text, GuestFileError, HostError, IoErrorKind};
use crate::error::OutputPathError;
use crate::guest_path::{parsed, GuestRelativePath, PathView};
use crate::model::FsView;
use crate::perms::{Dir, DirPerms, FilePerms, HostMetadata};
use crate::text::{begins_with, split_once, split_once_text, strip_prefix_text, texts};

verus! {

broadcast use vstd::std_specs::btree::group_btree_axioms;

/// Maximum number of output files returned by
/// [`CapFs::get_output_files`].
pub const MAX_OUTPUT_FILE_COUNT: usize = 10_000;

/// What a rooted guest path names below `root`, where it is acceptable.
pub open spec fn rooted(path: Seq<char>, root: Seq<char>) -> Result<PathView, OutputPathError> {
    let prefix = "/"@ + root + "/"@;
    if !begins_with(path, prefix) {
        Err(OutputPathError::NotRooted)
    } else {
        match parsed(path.skip(prefix.len() as int)) {
            Some(view) => Ok(view),
            None => Err(OutputPathError::InvalidPath),
        }
    }
}

impl FsView {
    /// Checks a request of the host to read a file by its guest path.
    pub open spec fn guest_file_request(self, path: Seq<char>) -> Result<
        TargetView,
        GuestFileError,
    > {
        if !begins_with(path, "/"@) {
            Err(GuestFileError::NotAbsolute)
        } else {
            match split_once(path.skip(1), '/') {
                None => Err(GuestFileError::NoFileName),
                Some((_, relative)) => match parsed(relative) {
                    None => Err(GuestFileError::InvalidPath),
                    Some(file) => if file.requires_directory {
                        Err(GuestFileError::NamesDirectory)
                    } else {
                        match self.mount_at(mount_point(path)) {
                            None => Err(GuestFileError::NoPreopen),
                            Some(fd) => {
                                let dir = self.preopens[fd].dir;
                                if !dir.grants().reads() {
                                    Err(GuestFileError::DirectoryDenied)
                                } else if !dir.file_grants().reads() {
                                    Err(GuestFileError::FilesDenied)
                                } else {
                                    Ok(TargetView { dir, path: file })
                                }
                            },
                        }
                    },
                },
            }
        }
    }

    /// Decides on the size of a file that the host opened: the state
    /// afterwards, and how many bytes are read. The whole file is charged.
    pub open spec fn guest_file_size(self, reply: GuestFileReply) -> (
        FsView,
        Result<u64, GuestFileError>,
    ) {
        match reply {
            GuestFileReply::NotOpened => (self, Err(GuestFileError::NotFound)),
            GuestFileReply::NotSized => (self, Err(GuestFileError::StatFailed)),
            GuestFileReply::Size(size) => {
                let limit = least(self.limits.max_single_read_bytes, usize::MAX as u64);
                if size > limit {
                    (self, Err(GuestFileError::TooLarge { size, limit }))
                } else {
                    match self.reads_charged(size) {
                        Some(after) => (after, Ok(size)),
                        None => (self, Err(GuestFileError::QuotaExceeded)),
                    }
                }
            },
        }
    }

    /// Checks a request of the host to write a file below `/output`.
    pub open spec fn output_request(self, path: Seq<char>) -> Result<TargetView, OutputPathError> {
        match rooted(path, "output"@) {
            Err(e) => Err(e),
            Ok(file) => if file.requires_directory {
                Err(OutputPathError::NamesDirectory)
            } else {
                match self.output_fd {
                    None => Err(OutputPathError::NoOutput),
                    Some(fd) => {
                        let dir = self.preopens[fd].dir;
                        if !dir.grants().mutates() {
                            Err(OutputPathError::DirectoryDenied)
                        } else if !dir.file_grants().writes() {
                            Err(OutputPathError::FilesDenied)
                        } else {
                            Ok(TargetView { dir, path: file })
                        }
                    },
                }
            },
        }
    }

    /// Charges a write of the host below `/output`, by what was found at the
    /// path: a new file first, then the bytes.
    pub open spec fn output_charged(self, reply: Result<HostMetadata, HostError>, len: u64) -> (
        FsView,
        Result<(), OutputPathError>,
    ) {
        if reply is Err && reply->Err_0.kind != IoErrorKind::NotFound {
            (self, Err(OutputPathError::StatFailed))
        } else if reply is Err && self.creation_charged() is None {
            (self, Err(OutputPathError::CreationQuota))
        } else {
            let created = if reply is Err {
                self.creation_charged()->0
            } else {
                self
            };
            match created.writes_charged(len) {
                Some(after) => (after, Ok(())),
                None => (created, Err(OutputPathError::WriteQuota)),
            }
        }
    }
}

/// What the host reports of a file that it was to open.
#[derive(Debug, Clone, Copy, PartialEq, Eq, Structural)]
pub enum GuestFileReply {
    /// It could not be opened.
    NotOpened,
    /// It was opened, but its size could not be told.
    NotSized,
    /// It was opened and has this size.
    Size(u64),
}

/// The names that a listing of the output directory keeps: those of the
/// regular files among the entries, in order.
pub open spec fn file_names(entries: Seq<(Seq<char>, Option<bool>)>) -> Seq<Seq<char>>
    decreases entries.len(),
{
    if entries.len() == 0 {
        Seq::empty()
    } else if entries.last().1 == Some(true) {
        file_names(entries.drop_last()).push(entries.last().0)
    } else {
        file_names(entries.drop_last())
    }
}

/// The files of the output directory, collected entry by entry.
pub struct OutputListing {
    names: Vec<String>,
    seen: Ghost<Seq<(Seq<char>, Option<bool>)>>,
}

impl OutputListing {
    /// The entries that were taken so far.
    pub closed spec fn taken(self) -> Seq<(Seq<char>, Option<bool>)> {
        self.seen@
    }

    /// The names found so far are those of the files among the entries, and
    /// not more than may be returned.
    pub closed spec fn wf(self) -> bool {
        &&& texts(self.names@) == file_names(self.seen@)
        &&& self.names@.len() <= MAX_OUTPUT_FILE_COUNT
    }

    /// Nothing listed yet.
    pub fn new() -> (r: OutputListing)
        ensures
            r.wf(),
            r.taken() == Seq::<(Seq<char>, Option<bool>)>::empty(),
    {
        let r = OutputListing { names: Vec::new(), seen: Ghost(Seq::empty()) };
        assert(texts(r.names@) =~= file_names(r.seen@));
        r
    }

    /// Takes one more entry: its name, and whether it is a regular file, where
    /// the host can tell. Returns whether it was taken; once the listing is
    /// full nothing more is.
    pub fn note(&mut self, name: String, is_file: Option<bool>) -> (r: bool)
        requires
            old(self).wf(),
        ensures
            final(self).wf(),
            r == (file_names(old(self).taken()).len() < MAX_OUTPUT_FILE_COUNT),
            final(self).taken() == if r {
                old(self).taken().push((name@, is_file))
            } else {
                old(self).taken()
            },
    {
        if self.names.len() >= MAX_OUTPUT_FILE_COUNT {
            return false;
        }
        let ghost before = self.seen@;
        let ghost entry = (name@, is_file);
        self.seen = Ghost(before.push(entry));
        proof {
            assert(before.push(entry).drop_last() =~= before);
        }
        if let Some(regular) = is_file {
            if regular {
                let ghost names = self.names@;
                self.names.push(name);
                assert(texts(self.names@) =~= texts(names).push(name@));
            }
        }
        true
    }

    /// The names of the files that were found.
    pub fn files(self) -> (r: Vec<String>)
        requires
            self.wf(),
        ensures
            texts(r@) == file_names(self.taken()),
            r@.len() <= MAX_OUTPUT_FILE_COUNT,
    {
        self.names
    }
}

impl CapFs {
    /// What a rooted guest path names below `root`.
    fn parse_rooted_guest_path(path: &str, root: &str) -> (r: Result<
        GuestRelativePath,
        OutputPathError,
    >)
        ensures
            match rooted(path@, root@) {
                Ok(view) => r matches Ok(p) && p.wf() && p@ == view,
                Err(e) => r == Err::<GuestRelativePath, _>(e),
            },
    {
        let prefix = crate::text::concat3("/", root, "/");
        match strip_prefix_text(path, prefix.as_str()) {
            Some(relative) => match GuestRelativePath::parse(relative.as_str()) {
                Ok(p) => Ok(p),
                Err(_) => Err(OutputPathError::InvalidPath),
            },
            None => Err(OutputPathError::NotRooted),
        }
    }

    /// Asks to write a file below `/output`. The host is to look the path up,
    /// not following a final symbolic link.
    pub fn write_output_path(&self, path: &str) -> (r: Result<Target, OutputPathError>)
        requires
            self.wf(),
        ensures
            match self@.output_request(path@) {
                Ok(view) => r matches Ok(target) && target.wf() && target@ == view,
                Err(e) => r == Err::<Target, _>(e),
            },
    {
        let key = match Self::parse_rooted_guest_path(path, "output") {
            Ok(key) => key,
            Err(e) => return Err(e),
        };
        if key.requires_directory() {
            return Err(OutputPathError::NamesDirectory);
        }
        let output_fd = match self.output_fd {
            Some(fd) => fd,
            None => return Err(OutputPathError::NoOutput),
        };
        let output = match self.root_dir(output_fd) {
            Some(dir) => dir.clone(),
            None => return Err(OutputPathError::NoOutput),
        };
        if !output.perms().contains(DirPerms::MUTATE) {
            return Err(OutputPathError::DirectoryDenied);
        }
        if !output.file_perms().contains(FilePerms::WRITE) {
            return Err(OutputPathError::FilesDenied);
        }
        Ok(Target::new(output, key))
    }

    /// Charges a write of `len` bytes below `/output`, by what the host found
    /// at the path. The host is then to create the file and write it.
    pub fn output_probed(&mut self, reply: Result<HostMetadata, HostError>, len: u64) -> (r: Result<
        (),
        OutputPathError,
    >)
        requires
            old(self).wf(),
        ensures
            final(self).wf(),
            final(self)@ == old(self)@.output_charged(reply, len).0,
            r == old(self)@.output_charged(reply, len).1,
    {
        let creates_file = match reply {
            Ok(_) => false,
            Err(e) => {
                if e.kind != IoErrorKind::NotFound {
                    return Err(OutputPathError::StatFailed);
                }
                true
            },
        };
        if creates_file {
            if let Err(_) = self.charge_creation() {
                return Err(OutputPathError::CreationQuota);
            }
        }
        if let Err(_) = self.charge_written_bytes(len) {
            return Err(OutputPathError::WriteQuota);
        }
        Ok(())
    }

    /// Asks to read a file from a preopened directory by guest path (e.g.
    /// "/input/data.txt"). The host is to open it and tell its size.
    pub fn read_guest_file(&self, guest_path: &str) -> (r: Result<Target, GuestFileError>)
        requires
            self.wf(),
        ensures
            match self@.guest_file_request(guest_path@) {
                Ok(view) => r matches Ok(target) && target.wf() && target@ == view,
                Err(e) => r == Err::<Target, _>(e),
            },
    {
        proof {
            reveal_strlit("/");
        }
        let without_leading = match strip_prefix_text(guest_path, "/") {
            Some(rest) => rest,
            None => return Err(GuestFileError::NotAbsolute),
        };
        let (_, relative) = match split_once_text(without_leading.as_str(), '/') {
            Some(parts) => parts,
            None => return Err(GuestFileError::NoFileName),
        };
        let file_name = match GuestRelativePath::parse(relative.as_str()) {
            Ok(p) => p,
            Err(_) => return Err(GuestFileError::InvalidPath),
        };
        if file_name.requires_directory() {
            return Err(GuestFileError::NamesDirectory);
        }
        let preopen_path = mount_point_text(guest_path);
        let dir = match self.dir_by_guest_path(preopen_path.as_str()) {
            Some(dir) => dir.clone(),
            None => return Err(GuestFileError::NoPreopen),
        };
        if !dir.perms().contains(DirPerms::READ) {
            return Err(GuestFileError::DirectoryDenied);
        }
        if !dir.file_perms().contains(FilePerms::READ) {
            return Err(GuestFileError::FilesDenied);
        }
        Ok(Target::new(dir, file_name))
    }

    /// Decides on the size of a file that the host opened, and charges it:
    /// how many bytes the host is to read. If a host process grows the file
    /// concurrently, the extra bytes belong to a later read rather than
    /// bypassing the per-run byte budget.
    pub fn guest_file_sized(&mut self, reply: GuestFileReply) -> (r: Result<u64, GuestFileError>)
        requires
            old(self).wf(),
        ensures
            final(self).wf(),
            final(self)@ == old(self)@.guest_file_size(reply).0,
            r == old(self)@.guest_file_size(reply).1,
    {
        let size = match reply {
            GuestFileReply::NotOpened => return Err(GuestFileError::NotFound),
            GuestFileReply::NotSized => return Err(GuestFileError::StatFailed),
            GuestFileReply::Size(size) => size,
        };
        let limit = smaller(self.limits.max_single_read_bytes, usize::MAX as u64);
        if size > limit {
            return Err(GuestFileError::TooLarge { size, limit });
        }
        if let Err(_) = self.charge_read_bytes(size) {
            return Err(GuestFileError::QuotaExceeded);
        }
        Ok(size)
    }

    /// Asks for the files of the output directory. Where one is mounted, the
    /// host is to list it into an [`OutputListing`].
    pub fn get_output_files(&self) -> (r: Option<&Dir>)
        requires
            self.wf(),
        ensures
            match self@.output_fd {
                Some(fd) => r == Some(&self@.preopens[fd].dir),
                None => r is None,
            },
    {
        match self.output_fd {
            Some(fd) => self.root_dir(fd),
            None => None,
        }
    }
}

} // verus!
