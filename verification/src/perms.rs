//! Permissions, open modes, and the capability-wrapped directory handle.
use cap_std::fs::Dir as CapDir;
use std::sync::Arc;
use vstd::prelude::*;
use vstd::std_specs::ops::BitOrSpec;

verus! {

/// An open host directory of `cap_std`. It is carried through the library as
/// an opaque value: nothing is claimed of what is inside it.
#[verifier::external_type_specification]
#[verifier::external_body]
pub struct ExCapDir(CapDir);

/// What a directory grants its holder.
#[allow(non_camel_case_types)]
#[derive(Clone, Copy, Debug, PartialEq, Eq, Structural)]
pub enum DirPerms {
    NONE,
    READ,
    MUTATE,
    READ_MUTATE,
}

impl DirPerms {
    /// Whether reading the directory is granted.
    pub open spec fn reads(self) -> bool {
        self is READ || self is READ_MUTATE
    }

    /// Whether changing the directory is granted.
    pub open spec fn mutates(self) -> bool {
        self is MUTATE || self is READ_MUTATE
    }

    /// The permissions that grant exactly what is asked for.
    pub open spec fn granting(read: bool, mutate: bool) -> DirPerms {
        if read && mutate {
            DirPerms::READ_MUTATE
        } else if read {
            DirPerms::READ
        } else if mutate {
            DirPerms::MUTATE
        } else {
            DirPerms::NONE
        }
    }

    /// Whether everything that `other` grants is granted.
    pub open spec fn includes(self, other: DirPerms) -> bool {
        &&& other.reads() ==> self.reads()
        &&& other.mutates() ==> self.mutates()
    }

    /// No permission at all.
    pub fn empty() -> (r: DirPerms)
        ensures
            !r.reads(),
            !r.mutates(),
    {
        DirPerms::NONE
    }

    /// Whether everything that `other` grants is granted.
    pub fn contains(&self, other: DirPerms) -> (r: bool)
        ensures
            r == self.includes(other),
    {
        match other {
            DirPerms::NONE => true,
            DirPerms::READ => *self == DirPerms::READ || *self == DirPerms::READ_MUTATE,
            DirPerms::MUTATE => *self == DirPerms::MUTATE || *self == DirPerms::READ_MUTATE,
            DirPerms::READ_MUTATE => *self == DirPerms::READ_MUTATE,
        }
    }
}

impl core::ops::BitOr for DirPerms {
    type Output = DirPerms;

    fn bitor(self, rhs: DirPerms) -> (r: DirPerms) {
        let read = self.contains(DirPerms::READ) || rhs.contains(DirPerms::READ);
        let mutate = self.contains(DirPerms::MUTATE) || rhs.contains(DirPerms::MUTATE);
        if read && mutate {
            DirPerms::READ_MUTATE
        } else if read {
            DirPerms::READ
        } else if mutate {
            DirPerms::MUTATE
        } else {
            DirPerms::NONE
        }
    }
}

impl vstd::std_specs::ops::BitOrSpecImpl for DirPerms {
    open spec fn obeys_bitor_spec() -> bool {
        true
    }

    open spec fn bitor_req(self, rhs: DirPerms) -> bool {
        true
    }

    open spec fn bitor_spec(self, rhs: DirPerms) -> DirPerms {
        DirPerms::granting(self.reads() || rhs.reads(), self.mutates() || rhs.mutates())
    }
}

/// What the files of a directory grant.
#[allow(non_camel_case_types)]
#[derive(Clone, Copy, Debug, PartialEq, Eq, Structural)]
pub enum FilePerms {
    NONE,
    READ,
    WRITE,
    READ_WRITE,
}

impl FilePerms {
    /// Whether reading is granted.
    pub open spec fn reads(self) -> bool {
        self is READ || self is READ_WRITE
    }

    /// Whether writing is granted.
    pub open spec fn writes(self) -> bool {
        self is WRITE || self is READ_WRITE
    }

    /// The permissions that grant exactly what is asked for.
    pub open spec fn granting(read: bool, write: bool) -> FilePerms {
        if read && write {
            FilePerms::READ_WRITE
        } else if read {
            FilePerms::READ
        } else if write {
            FilePerms::WRITE
        } else {
            FilePerms::NONE
        }
    }

    /// Whether everything that `other` grants is granted.
    pub open spec fn includes(self, other: FilePerms) -> bool {
        &&& other.reads() ==> self.reads()
        &&& other.writes() ==> self.writes()
    }

    /// No permission at all.
    pub fn empty() -> (r: FilePerms)
        ensures
            !r.reads(),
            !r.writes(),
    {
        FilePerms::NONE
    }

    /// Whether everything that `other` grants is granted.
    pub fn contains(&self, other: FilePerms) -> (r: bool)
        ensures
            r == self.includes(other),
    {
        match other {
            FilePerms::NONE => true,
            FilePerms::READ => *self == FilePerms::READ || *self == FilePerms::READ_WRITE,
            FilePerms::WRITE => *self == FilePerms::WRITE || *self == FilePerms::READ_WRITE,
            FilePerms::READ_WRITE => *self == FilePerms::READ_WRITE,
        }
    }
}

impl core::ops::BitOr for FilePerms {
    type Output = FilePerms;

    fn bitor(self, rhs: FilePerms) -> (r: FilePerms) {
        let read = self.contains(FilePerms::READ) || rhs.contains(FilePerms::READ);
        let write = self.contains(FilePerms::WRITE) || rhs.contains(FilePerms::WRITE);
        if read && write {
            FilePerms::READ_WRITE
        } else if read {
            FilePerms::READ
        } else if write {
            FilePerms::WRITE
        } else {
            FilePerms::NONE
        }
    }
}

impl vstd::std_specs::ops::BitOrSpecImpl for FilePerms {
    open spec fn obeys_bitor_spec() -> bool {
        true
    }

    open spec fn bitor_req(self, rhs: FilePerms) -> bool {
        true
    }

    open spec fn bitor_spec(self, rhs: FilePerms) -> FilePerms {
        FilePerms::granting(self.reads() || rhs.reads(), self.writes() || rhs.writes())
    }
}

/// How the final component of a guest path is resolved.
#[allow(non_camel_case_types)]
#[derive(Clone, Copy, Debug, PartialEq, Eq, Structural)]
pub enum PathFlags {
    NONE,
    /// Follow a symbolic link in the final path component.
    SYMLINK_FOLLOW,
}

impl PathFlags {
    /// Whether a final symbolic link is followed.
    pub open spec fn follows(self) -> bool {
        self is SYMLINK_FOLLOW
    }

    /// No flag at all.
    pub fn empty() -> (r: PathFlags)
        ensures
            !r.follows(),
    {
        PathFlags::NONE
    }

    /// Whether every flag of `other` is set.
    pub fn contains(&self, other: PathFlags) -> (r: bool)
        ensures
            r == (other.follows() ==> self.follows()),
    {
        other == PathFlags::NONE || *self == PathFlags::SYMLINK_FOLLOW
    }
}

impl core::ops::BitOr for PathFlags {
    type Output = PathFlags;

    fn bitor(self, rhs: PathFlags) -> (r: PathFlags) {
        if self == PathFlags::NONE {
            rhs
        } else {
            self
        }
    }
}

impl vstd::std_specs::ops::BitOrSpecImpl for PathFlags {
    open spec fn obeys_bitor_spec() -> bool {
        true
    }

    open spec fn bitor_req(self, rhs: PathFlags) -> bool {
        true
    }

    open spec fn bitor_spec(self, rhs: PathFlags) -> PathFlags {
        if self.follows() || rhs.follows() {
            PathFlags::SYMLINK_FOLLOW
        } else {
            PathFlags::NONE
        }
    }
}

/// How [`CapFs::open_at`](crate::cap_fs::CapFs::open_at) opens a file. The
/// variants with a longer name stand for several flags together.
#[allow(non_camel_case_types)]
#[derive(Clone, Copy, Debug, PartialEq, Eq, Structural)]
pub enum OpenFlags {
    /// Open an existing file without modification.
    OPEN_EXISTING,
    /// Create the file if it doesn't exist.
    CREATE,
    /// Truncate the file to zero length.
    TRUNCATE,
    CREATE_TRUNCATE,
    /// Require the path to resolve to a directory.
    DIRECTORY,
    CREATE_DIRECTORY,
    TRUNCATE_DIRECTORY,
    CREATE_TRUNCATE_DIRECTORY,
}

impl OpenFlags {
    /// Whether a missing file is created.
    pub open spec fn creates(self) -> bool {
        self is CREATE || self is CREATE_TRUNCATE || self is CREATE_DIRECTORY
            || self is CREATE_TRUNCATE_DIRECTORY
    }

    /// Whether the file is cut to zero length.
    pub open spec fn truncates(self) -> bool {
        self is TRUNCATE || self is CREATE_TRUNCATE || self is TRUNCATE_DIRECTORY
            || self is CREATE_TRUNCATE_DIRECTORY
    }

    /// Whether the path has to name a directory.
    pub open spec fn wants_directory(self) -> bool {
        self is DIRECTORY || self is CREATE_DIRECTORY || self is TRUNCATE_DIRECTORY
            || self is CREATE_TRUNCATE_DIRECTORY
    }

    /// The flags that are set exactly as asked for.
    pub open spec fn of(create: bool, truncate: bool, directory: bool) -> OpenFlags {
        if directory {
            if create && truncate {
                OpenFlags::CREATE_TRUNCATE_DIRECTORY
            } else if create {
                OpenFlags::CREATE_DIRECTORY
            } else if truncate {
                OpenFlags::TRUNCATE_DIRECTORY
            } else {
                OpenFlags::DIRECTORY
            }
        } else if create && truncate {
            OpenFlags::CREATE_TRUNCATE
        } else if create {
            OpenFlags::CREATE
        } else if truncate {
            OpenFlags::TRUNCATE
        } else {
            OpenFlags::OPEN_EXISTING
        }
    }

    /// Whether every flag of `other` is set.
    pub open spec fn includes(self, other: OpenFlags) -> bool {
        &&& other.creates() ==> self.creates()
        &&& other.truncates() ==> self.truncates()
        &&& other.wants_directory() ==> self.wants_directory()
    }

    fn bits(&self) -> (r: (bool, bool, bool))
        ensures
            r == (self.creates(), self.truncates(), self.wants_directory()),
    {
        match *self {
            OpenFlags::OPEN_EXISTING => (false, false, false),
            OpenFlags::CREATE => (true, false, false),
            OpenFlags::TRUNCATE => (false, true, false),
            OpenFlags::CREATE_TRUNCATE => (true, true, false),
            OpenFlags::DIRECTORY => (false, false, true),
            OpenFlags::CREATE_DIRECTORY => (true, false, true),
            OpenFlags::TRUNCATE_DIRECTORY => (false, true, true),
            OpenFlags::CREATE_TRUNCATE_DIRECTORY => (true, true, true),
        }
    }

    /// Whether every flag of `other` is set.
    pub fn contains(&self, other: OpenFlags) -> (r: bool)
        ensures
            r == self.includes(other),
    {
        let mine = self.bits();
        let theirs = other.bits();
        (!theirs.0 || mine.0) && (!theirs.1 || mine.1) && (!theirs.2 || mine.2)
    }
}

impl core::ops::BitOr for OpenFlags {
    type Output = OpenFlags;

    fn bitor(self, rhs: OpenFlags) -> (r: OpenFlags) {
        let a = self.bits();
        let b = rhs.bits();
        let create = a.0 || b.0;
        let truncate = a.1 || b.1;
        if a.2 || b.2 {
            if create && truncate {
                OpenFlags::CREATE_TRUNCATE_DIRECTORY
            } else if create {
                OpenFlags::CREATE_DIRECTORY
            } else if truncate {
                OpenFlags::TRUNCATE_DIRECTORY
            } else {
                OpenFlags::DIRECTORY
            }
        } else if create && truncate {
            OpenFlags::CREATE_TRUNCATE
        } else if create {
            OpenFlags::CREATE
        } else if truncate {
            OpenFlags::TRUNCATE
        } else {
            OpenFlags::OPEN_EXISTING
        }
    }
}

impl vstd::std_specs::ops::BitOrSpecImpl for OpenFlags {
    open spec fn obeys_bitor_spec() -> bool {
        true
    }

    open spec fn bitor_req(self, rhs: OpenFlags) -> bool {
        true
    }

    open spec fn bitor_spec(self, rhs: OpenFlags) -> OpenFlags {
        OpenFlags::of(
            self.creates() || rhs.creates(),
            self.truncates() || rhs.truncates(),
            self.wants_directory() || rhs.wants_directory(),
        )
    }
}

/// Whether a mount keeps its contents from one run to the next.
#[derive(Debug, Clone, Copy, PartialEq, Eq, Structural)]
pub enum MountLifetime {
    Persistent,
    ClearBeforeRun,
}

/// Type of a filesystem descriptor.
#[derive(Debug, Clone, Copy, PartialEq, Eq, Structural)]
pub enum DescriptorType {
    Directory,
    RegularFile,
    SymbolicLink,
}

/// Metadata about a file or directory.
#[derive(Debug, Clone, Copy, PartialEq, Eq, Structural)]
pub struct DescriptorStat {
    pub descriptor_type: DescriptorType,
    pub size: u64,
}

/// Effective permissions reported for a descriptor.
#[derive(Debug, Clone, Copy, PartialEq, Eq, Structural)]
pub struct DescriptorFlags {
    pub read: bool,
    pub write: bool,
    pub mutate_directory: bool,
}

/// What the host grants on the work directory.
#[derive(Debug, Clone, Copy, PartialEq, Eq, Structural)]
pub enum WorkDirAccess {
    ReadOnly,
    ReadWrite,
}

/// What the host reports of one name: whether it is a directory, whether it
/// is itself a symbolic link, and its length in bytes.
#[derive(Debug, Clone, Copy, PartialEq, Eq, Structural)]
pub struct HostMetadata {
    pub is_dir: bool,
    pub is_symlink: bool,
    pub len: u64,
}

/// A capability-wrapped directory handle with explicit permissions.
pub struct Dir {
    dir: Arc<CapDir>,
    perms: DirPerms,
    file_perms: FilePerms,
}

impl Dir {
    /// The host directory behind the handle.
    pub closed spec fn host(self) -> CapDir {
        *self.dir
    }

    /// What the directory grants.
    pub closed spec fn grants(self) -> DirPerms {
        self.perms
    }

    /// What the files of the directory grant.
    pub closed spec fn file_grants(self) -> FilePerms {
        self.file_perms
    }

    /// The handle on a host directory that grants what is given.
    pub closed spec fn wrapping(host: CapDir, perms: DirPerms, file_perms: FilePerms) -> Dir {
        choose|d: Dir| d.host() == host && d.grants() == perms && d.file_grants() == file_perms
    }

    /// The handle on a host directory is on that directory, and grants exactly
    /// what was given.
    pub proof fn lemma_wrapping(host: CapDir, perms: DirPerms, file_perms: FilePerms)
        ensures
            Dir::wrapping(host, perms, file_perms).host() == host,
            Dir::wrapping(host, perms, file_perms).grants() == perms,
            Dir::wrapping(host, perms, file_perms).file_grants() == file_perms,
    {
        let d = Dir { dir: Arc::new(host), perms, file_perms };
        assert(d.host() == host && d.grants() == perms && d.file_grants() == file_perms);
    }

    pub fn new(dir: CapDir, perms: DirPerms, file_perms: FilePerms) -> (r: Dir)
        ensures
            r == Dir::wrapping(dir, perms, file_perms),
            r.host() == dir,
            r.grants() == perms,
            r.file_grants() == file_perms,
    {
        let r = Dir { dir: Arc::new(dir), perms, file_perms };
        proof {
            let other = Dir::wrapping(dir, perms, file_perms);
            assert(r.host() == dir && r.grants() == perms && r.file_grants() == file_perms);
            assert(other.host() == dir);
        }
        r
    }

    pub fn cap_std(&self) -> (r: &CapDir)
        ensures
            *r == self.host(),
    {
        &self.dir
    }

    pub fn perms(&self) -> (r: DirPerms)
        ensures
            r == self.grants(),
    {
        self.perms
    }

    pub fn file_perms(&self) -> (r: FilePerms)
        ensures
            r == self.file_grants(),
    {
        self.file_perms
    }
}

impl Clone for Dir {
    fn clone(&self) -> (r: Dir)
        ensures
            r == *self,
    {
        Dir { dir: self.dir.clone(), perms: self.perms, file_perms: self.file_perms }
    }
}

/// Rights on a directory are two independent ones. What is asked for is what is
/// granted, nothing else tells two grants apart, and joining two grants what
/// either does.
pub proof fn law_directory_rights(a: DirPerms, b: DirPerms, read: bool, mutate: bool)
    ensures
        DirPerms::READ.reads() && !DirPerms::READ.mutates(),
        DirPerms::MUTATE.mutates() && !DirPerms::MUTATE.reads(),
        !DirPerms::NONE.reads() && !DirPerms::NONE.mutates(),
        DirPerms::READ_MUTATE.reads() && DirPerms::READ_MUTATE.mutates(),
        DirPerms::granting(read, mutate).reads() == read,
        DirPerms::granting(read, mutate).mutates() == mutate,
        a.reads() == b.reads() && a.mutates() == b.mutates() ==> a == b,
        a.bitor_spec(b).reads() == (a.reads() || b.reads()),
        a.bitor_spec(b).mutates() == (a.mutates() || b.mutates()),
        a.includes(b) <==> a.bitor_spec(b) == a,
        a.includes(DirPerms::READ) <==> a.reads(),
        a.includes(DirPerms::MUTATE) <==> a.mutates(),
        a.includes(DirPerms::NONE),
{
}

/// Rights on files are two independent ones. What is asked for is what is
/// granted, nothing else tells two grants apart, and joining two grants what
/// either does.
pub proof fn law_file_rights(a: FilePerms, b: FilePerms, read: bool, write: bool)
    ensures
        FilePerms::READ.reads() && !FilePerms::READ.writes(),
        FilePerms::WRITE.writes() && !FilePerms::WRITE.reads(),
        !FilePerms::NONE.reads() && !FilePerms::NONE.writes(),
        FilePerms::READ_WRITE.reads() && FilePerms::READ_WRITE.writes(),
        FilePerms::granting(read, write).reads() == read,
        FilePerms::granting(read, write).writes() == write,
        a.reads() == b.reads() && a.writes() == b.writes() ==> a == b,
        a.bitor_spec(b).reads() == (a.reads() || b.reads()),
        a.bitor_spec(b).writes() == (a.writes() || b.writes()),
        a.includes(b) <==> a.bitor_spec(b) == a,
        a.includes(FilePerms::READ) <==> a.reads(),
        a.includes(FilePerms::WRITE) <==> a.writes(),
        a.includes(FilePerms::NONE),
{
}

/// Following is the one flag on how a path is resolved.
pub proof fn law_path_flags(a: PathFlags, b: PathFlags)
    ensures
        PathFlags::SYMLINK_FOLLOW.follows(),
        !PathFlags::NONE.follows(),
        a.follows() == b.follows() ==> a == b,
        a.bitor_spec(b).follows() == (a.follows() || b.follows()),
{
}

/// Creating, truncating and wanting a directory are three independent flags:
/// each is set on its own, nothing else tells two combinations apart, and
/// joining two sets what either does.
pub proof fn law_open_flags(
    a: OpenFlags,
    b: OpenFlags,
    create: bool,
    truncate: bool,
    directory: bool,
)
    ensures
        ({
            let none = OpenFlags::OPEN_EXISTING;
            !none.creates() && !none.truncates() && !none.wants_directory()
        }),
        ({
            let one = OpenFlags::CREATE;
            one.creates() && !one.truncates() && !one.wants_directory()
        }),
        ({
            let one = OpenFlags::TRUNCATE;
            !one.creates() && one.truncates() && !one.wants_directory()
        }),
        ({
            let one = OpenFlags::DIRECTORY;
            !one.creates() && !one.truncates() && one.wants_directory()
        }),
        OpenFlags::of(create, truncate, directory).creates() == create,
        OpenFlags::of(create, truncate, directory).truncates() == truncate,
        OpenFlags::of(create, truncate, directory).wants_directory() == directory,
        a.creates() == b.creates() && a.truncates() == b.truncates() && a.wants_directory()
            == b.wants_directory() ==> a == b,
        a.bitor_spec(b).creates() == (a.creates() || b.creates()),
        a.bitor_spec(b).truncates() == (a.truncates() || b.truncates()),
        a.bitor_spec(b).wants_directory() == (a.wants_directory() || b.wants_directory()),
        a.includes(b) <==> a.bitor_spec(b) == a,
{
}

/// Permissions and flags answer for what they hold, and a directory handle for
/// what it was made of.
pub proof fn law_rights_are_asked_for(
    dir: DirPerms,
    file: FilePerms,
    path: PathFlags,
    open: OpenFlags,
    other: (DirPerms, FilePerms, PathFlags, OpenFlags),
    contained: (bool, bool, bool, bool),
    host: CapDir,
    handle: Dir,
    perms: DirPerms,
    file_perms: FilePerms,
    inner: &CapDir,
)
    requires
        call_ensures(DirPerms::contains, (&dir, other.0), contained.0),
        call_ensures(FilePerms::contains, (&file, other.1), contained.1),
        call_ensures(PathFlags::contains, (&path, other.2), contained.2),
        call_ensures(OpenFlags::contains, (&open, other.3), contained.3),
        call_ensures(Dir::new, (host, dir, file), handle),
        call_ensures(Dir::perms, (&handle,), perms),
        call_ensures(Dir::file_perms, (&handle,), file_perms),
        call_ensures(Dir::cap_std, (&handle,), inner),
    ensures
        contained.0 <==> (other.0.reads() ==> dir.reads()) && (other.0.mutates() ==> dir.mutates()),
        contained.1 <==> (other.1.reads() ==> file.reads()) && (other.1.writes() ==> file.writes()),
        contained.2 <==> (other.2 is SYMLINK_FOLLOW ==> path is SYMLINK_FOLLOW),
        contained.3 <==> (other.3.creates() ==> open.creates()) && (other.3.truncates()
            ==> open.truncates()) && (other.3.wants_directory() ==> open.wants_directory()),
        perms == dir,
        file_perms == file,
        *inner == host,
{
}

/// Nothing is granted and nothing followed by what is empty.
pub proof fn law_empty_grants_nothing(dir: DirPerms, file: FilePerms, path: PathFlags)
    requires
        call_ensures(DirPerms::empty, (), dir),
        call_ensures(FilePerms::empty, (), file),
        call_ensures(PathFlags::empty, (), path),
    ensures
        dir == DirPerms::NONE,
        file == FilePerms::NONE,
        path == PathFlags::NONE,
{
}

} // verus!
