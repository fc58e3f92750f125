//! Mounting host directories.
use cap_std::fs::Dir as CapDir;
use std::path::PathBuf;
use vstd::prelude::*;

use super::{CapFs, DescriptorEntry, PreopenEntry};
use crate::error::{outcome, FsError, MountError};
use crate::guest_path::GuestRelativePath;
use crate::model::{lemma_mounted, lemma_same_tables, roots_overlap, FsView, PreopenView};
use crate::perms::{DescriptorType, Dir, DirPerms, FilePerms, MountLifetime, WorkDirAccess};
use crate::table::keys_of;
use crate::text::{same_text, texts};

verus! {

broadcast use vstd::std_specs::btree::group_btree_axioms;

/// An opened host directory.
pub struct HostDir {
    /// The capability.
    pub dir: CapDir,
    /// The path under which the host knows the directory.
    pub path: PathBuf,
    /// The components of its resolved path, from the root of the host on.
    pub root: Vec<String>,
}

/// What is mounted where the host hands over a directory.
pub open spec fn host_mount(
    host: HostDir,
    perms: DirPerms,
    file_perms: FilePerms,
    guest_path: Seq<char>,
    lifetime: MountLifetime,
) -> PreopenView {
    PreopenView {
        dir: Dir::wrapping(host.dir, perms, file_perms),
        guest_path,
        lifetime,
        host_root: Some(texts(host.root@)),
    }
}

/// Whether the mount `fd` gives access to the directory that the host handed
/// over, with exactly the given permissions.
pub open spec fn granted_to(
    fs: FsView,
    fd: u32,
    host: HostDir,
    perms: DirPerms,
    file_perms: FilePerms,
) -> bool {
    &&& fs.preopens.contains_key(fd)
    &&& fs.preopens[fd].dir.host() == host.dir
    &&& fs.preopens[fd].dir.grants() == perms
    &&& fs.preopens[fd].dir.file_grants() == file_perms
}

/// Whether the one list of components begins with the other.
fn begins_with_components(long: &Vec<String>, short: &Vec<String>) -> (r: bool)
    ensures
        r == (short@.len() <= long@.len() && texts(long@).take(short@.len() as int) == texts(
            short@,
        )),
{
    if short.len() > long.len() {
        return false;
    }
    let mut i: usize = 0;
    while i < short.len()
        invariant
            0 <= i <= short@.len() <= long@.len(),
            forall|j: int| 0 <= j < i ==> texts(long@)[j] == #[trigger] texts(short@)[j],
        decreases short@.len() - i,
    {
        if !same_text(long[i].as_str(), short[i].as_str()) {
            proof {
                assert(texts(long@).take(short@.len() as int)[i as int] != texts(short@)[i as int]);
            }
            return false;
        }
        i += 1;
    }
    assert(texts(long@).take(short@.len() as int) =~= texts(short@));
    true
}

impl CapFs {
    /// Whether a host directory may be mounted with the given lifetime beside
    /// what is mounted already.
    fn keeps_apart(&self, root: &Vec<String>, lifetime: MountLifetime) -> (r: bool)
        ensures
            r == self@.keeps_apart(texts(root@), lifetime),
    {
        let fds = keys_of(&self.preopen_dirs);
        let mut i: usize = 0;
        while i < fds.len()
            invariant
                0 <= i <= fds@.len(),
                forall|j: int|
                    0 <= j < fds@.len() ==> self.preopen_dirs@.contains_key(#[trigger] fds@[j]),
                forall|j: int|
                    0 <= j < i ==> {
                        let p = self@.preopens[#[trigger] fds@[j]];
                        p.lifetime != lifetime && p.host_root is Some ==> !roots_overlap(
                            p.host_root->0,
                            texts(root@),
                        )
                    },
            decreases fds@.len() - i,
        {
            let fd = fds[i];
            if let Some(entry) = self.preopen_dirs.get(&fd) {
                assert(self@.preopens[fd] == entry.model());
                if entry.lifetime != lifetime {
                    if let Some(other) = &entry.host_root {
                        if begins_with_components(root, other) || begins_with_components(
                            other,
                            root,
                        ) {
                            assert(self@.preopens.contains_key(fd));
                            return false;
                        }
                    }
                }
            }
            i += 1;
        }
        proof {
            assert forall|fd: u32| #[trigger]
                self@.preopens.contains_key(fd) && self@.preopens[fd].lifetime != lifetime
                    && self@.preopens[fd].host_root is Some implies !roots_overlap(
                self@.preopens[fd].host_root->0,
                texts(root@),
            ) by {
                assert(self.preopen_dirs@.contains_key(fd));
                assert(fds@.contains(fd));
                let j = choose|j: int| 0 <= j < fds@.len() && fds@[j] == fd;
                assert(self@.preopens[fds@[j]] == self@.preopens[fd]);
            }
        }
        true
    }

    /// Mounts a directory whose place on the host is known or not.
    fn register(
        &mut self,
        dir: Dir,
        guest_path: &str,
        lifetime: MountLifetime,
        host_root: Option<Vec<String>>,
    ) -> (r: Result<u32, FsError>)
        requires
            old(self).wf(),
            host_root matches Some(root) ==> old(self)@.keeps_apart(texts(root@), lifetime),
        ensures
            final(self).wf(),
            match old(self)@.mount_refusal() {
                Some(e) => outcome(r) == Err::<u32, _>(e) && final(self)@ == old(self)@,
                None => r == Ok::<u32, FsError>(old(self)@.next_handle) && final(self)@
                    == old(self)@.mounted(
                    (PreopenView {
                        dir,
                        guest_path: guest_path@,
                        lifetime,
                        host_root: match host_root {
                            Some(root) => Some(texts(root@)),
                            None => None,
                        },
                    }),
                ),
            },
    {
        if let Err(e) = self.ensure_descriptor_capacity() {
            return Err(e);
        }
        let fd = match self.alloc_handle() {
            Ok(fd) => fd,
            Err(e) => return Err(e),
        };
        let entry = PreopenEntry {
            dir: dir.clone(),
            guest_path: guest_path.to_owned(),
            lifetime,
            host_root,
        };
        let ghost preopen = entry.model();
        self.preopen_dirs.insert(fd, entry);
        self.descriptors.insert(
            fd,
            DescriptorEntry {
                root_fd: fd,
                relative_path: GuestRelativePath::root(),
                descriptor_type: DescriptorType::Directory,
                is_preopen: true,
                parent_fd: None,
                directory: Some(dir),
            },
        );
        proof {
            assert(self@ =~= old(self)@.mounted(preopen));
            lemma_mounted(old(self)@, preopen);
        }
        Ok(fd)
    }

    /// Mounts a directory for guests under `guest_path`. It takes a
    /// descriptor of its own, or the mount is refused and nothing changes.
    ///
    /// Where the directory lies on the host is not known here, so unlike with
    /// the `with_*` functions nothing keeps it apart from mounts of the other
    /// lifetime: that is up to the caller.
    pub fn register_preopen(
        &mut self,
        dir: Dir,
        guest_path: &str,
        lifetime: MountLifetime,
    ) -> (r: Result<u32, FsError>)
        requires
            old(self).wf(),
        ensures
            final(self).wf(),
            match old(self)@.mount_refusal() {
                Some(e) => outcome(r) == Err::<u32, _>(e) && final(self)@ == old(self)@,
                None => r == Ok::<u32, FsError>(old(self)@.next_handle) && final(self)@
                    == old(self)@.mounted(
                    (PreopenView { dir, guest_path: guest_path@, lifetime, host_root: None }),
                ),
            },
    {
        self.register(dir, guest_path, lifetime, None)
    }

    /// Mounts a directory whose place on the host is known. Directories of
    /// different lifetimes must be neither the same nor inside one another.
    fn mount(
        &mut self,
        host: HostDir,
        perms: DirPerms,
        file_perms: FilePerms,
        guest_path: &str,
        lifetime: MountLifetime,
    ) -> (r: Result<(u32, PathBuf), MountError>)
        requires
            old(self).wf(),
        ensures
            final(self).wf(),
            match old(self)@.mounting(
                host_mount(host, perms, file_perms, guest_path@, lifetime),
            ) {
                Ok(after) => r == Ok::<(u32, PathBuf), MountError>(
                    (old(self)@.next_handle, host.path),
                ) && final(self)@ == after,
                Err(e) => (r matches Err(x) && x@ == e) && final(self)@ == old(self)@,
            },
            r is Ok ==> granted_to(final(self)@, old(self)@.next_handle, host, perms, file_perms),
    {
        if !self.keeps_apart(&host.root, lifetime) {
            return Err(MountError::Overlap);
        }
        let dir = Dir::new(host.dir, perms, file_perms);
        match self.register(dir, guest_path, lifetime, Some(host.root)) {
            Ok(fd) => Ok((fd, host.path)),
            Err(e) => Err(MountError::Fs(e)),
        }
    }

    /// Add a read-only input directory preopen (`/input`).
    pub fn with_input(self, input: HostDir) -> (r: Result<CapFs, MountError>)
        requires
            self.wf(),
        ensures
            match self@.mounting(
                host_mount(
                    input,
                    DirPerms::READ,
                    FilePerms::READ,
                    "/input"@,
                    MountLifetime::Persistent,
                ),
            ) {
                Ok(after) => r matches Ok(fs) && fs.wf() && fs@ == after,
                Err(e) => r matches Err(x) && x@ == e,
            },
            r matches Ok(fs) ==> granted_to(
                fs@,
                self@.next_handle,
                input,
                DirPerms::READ,
                FilePerms::READ,
            ),
    {
        let mut fs = self;
        match fs.mount(
            input,
            DirPerms::READ,
            FilePerms::READ,
            "/input",
            MountLifetime::Persistent,
        ) {
            Ok(_) => Ok(fs),
            Err(e) => Err(e),
        }
    }

    /// Notes which mount is the output directory.
    fn set_output(&mut self, fd: u32, path: PathBuf)
        requires
            old(self).wf(),
            old(self)@.preopens.contains_key(fd),
        ensures
            final(self).wf(),
            final(self)@ == (FsView {
                output_fd: Some(fd),
                output_path: Some(path),
                ..old(self)@
            }),
    {
        self.output_fd = Some(fd);
        self.output_path = Some(path);
        proof {
            assert(self@ =~= FsView {
                output_fd: Some(fd),
                output_path: Some(path),
                ..old(self)@
            });
            lemma_same_tables(old(self)@, self@);
        }
    }

    /// Add a writable output directory preopen (`/output`) backed by a temp dir.
    pub fn with_temp_output(self, output: HostDir) -> (r: Result<CapFs, MountError>)
        requires
            self.wf(),
        ensures
            match self@.mounting(
                host_mount(
                    output,
                    DirPerms::READ_MUTATE,
                    FilePerms::READ_WRITE,
                    "/output"@,
                    MountLifetime::ClearBeforeRun,
                ),
            ) {
                Ok(after) => r matches Ok(fs) && fs.wf() && fs@ == (FsView {
                    output_fd: Some(self@.next_handle),
                    output_path: Some(output.path),
                    ..after
                }),
                Err(e) => r matches Err(x) && x@ == e,
            },
            r matches Ok(fs) ==> granted_to(
                fs@,
                self@.next_handle,
                output,
                DirPerms::READ_MUTATE,
                FilePerms::READ_WRITE,
            ),
    {
        self.with_output_dir(
            output,
            DirPerms::READ | DirPerms::MUTATE,
            FilePerms::READ | FilePerms::WRITE,
        )
    }

    /// Add a writable output directory preopen (`/output`) at a caller-provided path.
    pub fn with_output_dir(
        self,
        output: HostDir,
        dir_perms: DirPerms,
        file_perms: FilePerms,
    ) -> (r: Result<CapFs, MountError>)
        requires
            self.wf(),
        ensures
            match self@.mounting(
                host_mount(
                    output,
                    dir_perms,
                    file_perms,
                    "/output"@,
                    MountLifetime::ClearBeforeRun,
                ),
            ) {
                Ok(after) => r matches Ok(fs) && fs.wf() && fs@ == (FsView {
                    output_fd: Some(self@.next_handle),
                    output_path: Some(output.path),
                    ..after
                }),
                Err(e) => r matches Err(x) && x@ == e,
            },
            r matches Ok(fs) ==> granted_to(
                fs@,
                self@.next_handle,
                output,
                dir_perms,
                file_perms,
            ),
    {
        let mut fs = self;
        match fs.mount(output, dir_perms, file_perms, "/output", MountLifetime::ClearBeforeRun) {
            Ok((fd, path)) => {
                fs.set_output(fd, path);
                Ok(fs)
            },
            Err(e) => Err(e),
        }
    }

    /// Add a work directory preopen (`/work`) that keeps its contents from one
    /// run to the next.
    pub fn with_work(self, work: HostDir, access: WorkDirAccess) -> (r: Result<CapFs, MountError>)
        requires
            self.wf(),
        ensures
            match self@.mounting(
                host_mount(
                    work,
                    DirPerms::granting(true, access is ReadWrite),
                    FilePerms::granting(true, access is ReadWrite),
                    "/work"@,
                    MountLifetime::Persistent,
                ),
            ) {
                Ok(after) => r matches Ok(fs) && fs.wf() && fs@ == after,
                Err(e) => r matches Err(x) && x@ == e,
            },
            r matches Ok(fs) ==> granted_to(
                fs@,
                self@.next_handle,
                work,
                DirPerms::granting(true, access is ReadWrite),
                FilePerms::granting(true, access is ReadWrite),
            ),
    {
        let (dir_perms, file_perms) = match access {
            WorkDirAccess::ReadOnly => (DirPerms::READ, FilePerms::READ),
            WorkDirAccess::ReadWrite => (
                DirPerms::READ | DirPerms::MUTATE,
                FilePerms::READ | FilePerms::WRITE,
            ),
        };
        let mut fs = self;
        match fs.mount(work, dir_perms, file_perms, "/work", MountLifetime::Persistent) {
            Ok(_) => Ok(fs),
            Err(e) => Err(e),
        }
    }

    /// Add a writable temp directory preopen (`/tmp`) that is wiped clean
    /// before each run.
    pub fn with_temp_dir(self, temp: HostDir) -> (r: Result<CapFs, MountError>)
        requires
            self.wf(),
        ensures
            match self@.mounting(
                host_mount(
                    temp,
                    DirPerms::READ_MUTATE,
                    FilePerms::READ_WRITE,
                    "/tmp"@,
                    MountLifetime::ClearBeforeRun,
                ),
            ) {
                Ok(after) => r matches Ok(fs) && fs.wf() && fs@ == (FsView {
                    temp_path: Some(temp.path),
                    ..after
                }),
                Err(e) => r matches Err(x) && x@ == e,
            },
            r matches Ok(fs) ==> granted_to(
                fs@,
                self@.next_handle,
                temp,
                DirPerms::READ_MUTATE,
                FilePerms::READ_WRITE,
            ),
    {
        let mut fs = self;
        match fs.mount(
            temp,
            DirPerms::READ | DirPerms::MUTATE,
            FilePerms::READ | FilePerms::WRITE,
            "/tmp",
            MountLifetime::ClearBeforeRun,
        ) {
            Ok((_, path)) => {
                let ghost mounted = fs@;
                fs.temp_path = Some(path);
                proof {
                    assert(fs@ =~= FsView { temp_path: Some(path), ..mounted });
                    lemma_same_tables(mounted, fs@);
                }
                Ok(fs)
            },
            Err(e) => Err(e),
        }
    }
}

} // verus!
