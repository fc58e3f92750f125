#![allow(dead_code)]
use std::io::{Error, ErrorKind, Read, Seek, SeekFrom, Write};
use std::path::{Path, PathBuf};

use anyhow::{Context, Result};
use cap_std::ambient_authority;
use cap_std::fs::{Dir as CapDir, Metadata, OpenOptions};
use hyperlight_sandbox::cap_fs::listing::HostEntry;
use hyperlight_sandbox::cap_fs::namespace::unlink_refused;
use hyperlight_sandbox::cap_fs::stat::{file_size_replied, stat_replied};
use hyperlight_sandbox::cap_fs::{
    Cleanup, CleanupAction, CleanupEvent, GuestFileReply, HostDir, OutputListing, ReadStep,
    RenameStage, StatQuery, Sweep, Target, Unlink, WriteRequest,
};
use hyperlight_sandbox::error::{
    checked, GuestFileError, HostError, IoErrorKind, MountError, OutputPathError,
};
use hyperlight_sandbox::perms::HostMetadata;
use hyperlight_sandbox::sandbox::MountRequest;
use hyperlight_sandbox::{
    CapFs, DescriptorFlags, DescriptorStat, DescriptorType, Dir, DirPerms, FilePerms,
    FilesystemLimits, FsError, MountLifetime, OpenFlags, PathFlags, WorkDirAccess,
};
use hyperlight_sandbox::guest_path::{
    GuestRelativePath, MAX_GUEST_PATH_BYTES, MAX_GUEST_PATH_COMPONENTS,
};
use hyperlight_sandbox::handles::HandleAllocator;
use hyperlight_sandbox::toolbox::{ShellAction, ShellEvent};
use hyperlight_sandbox::{ExecutionResult, GuestSandbox, SandboxBuilder, Snapshot, Toolbox};
use tempfile::TempDir;
fn host_error(error: Error) -> HostError {
    let kind = match error.kind() {
        ErrorKind::NotFound => IoErrorKind::NotFound,
        ErrorKind::PermissionDenied => IoErrorKind::PermissionDenied,
        ErrorKind::AlreadyExists => IoErrorKind::AlreadyExists,
        ErrorKind::WouldBlock => IoErrorKind::WouldBlock,
        ErrorKind::NotADirectory => IoErrorKind::NotADirectory,
        ErrorKind::IsADirectory => IoErrorKind::IsADirectory,
        ErrorKind::DirectoryNotEmpty => IoErrorKind::DirectoryNotEmpty,
        ErrorKind::ReadOnlyFilesystem => IoErrorKind::ReadOnlyFilesystem,
        ErrorKind::InvalidInput => IoErrorKind::InvalidInput,
        ErrorKind::InvalidData => IoErrorKind::InvalidData,
        ErrorKind::StorageFull => IoErrorKind::StorageFull,
        ErrorKind::NotSeekable => IoErrorKind::NotSeekable,
        ErrorKind::QuotaExceeded => IoErrorKind::QuotaExceeded,
        ErrorKind::FileTooLarge => IoErrorKind::FileTooLarge,
        ErrorKind::ResourceBusy => IoErrorKind::ResourceBusy,
        ErrorKind::ExecutableFileBusy => IoErrorKind::ExecutableFileBusy,
        ErrorKind::Deadlock => IoErrorKind::Deadlock,
        ErrorKind::CrossesDevices => IoErrorKind::CrossesDevices,
        ErrorKind::TooManyLinks => IoErrorKind::TooManyLinks,
        ErrorKind::InvalidFilename => IoErrorKind::InvalidFilename,
        ErrorKind::ArgumentListTooLong => IoErrorKind::ArgumentListTooLong,
        ErrorKind::Interrupted => IoErrorKind::Interrupted,
        ErrorKind::Unsupported => IoErrorKind::Unsupported,
        ErrorKind::OutOfMemory => IoErrorKind::OutOfMemory,
        _ => IoErrorKind::Other,
    };
    HostError {
        kind,
        message: error.to_string(),
    }
}

fn host_metadata(metadata: Metadata) -> HostMetadata {
    HostMetadata {
        is_dir: metadata.is_dir(),
        is_symlink: metadata.file_type().is_symlink(),
        len: metadata.len(),
    }
}

fn look_up(target: &Target, follow_symlinks: bool) -> Result<HostMetadata, HostError> {
    let dir = target.dir().cap_std();
    if follow_symlinks {
        dir.metadata(target.path())
    } else {
        dir.symlink_metadata(target.path())
    }
    .map(host_metadata)
    .map_err(host_error)
}
fn path_components(path: &Path) -> Vec<String> {
    path.components()
        .map(|component| {
            component
                .as_os_str()
                .as_encoded_bytes()
                .iter()
                .map(|&byte| char::from(byte))
                .collect()
        })
        .collect()
}

fn open_host_dir(path: &Path) -> std::io::Result<HostDir> {
    let dir = CapDir::open_ambient_dir(path, ambient_authority())?;
    let resolved = path.canonicalize()?;
    Ok(HostDir {
        dir,
        path: path.to_path_buf(),
        root: path_components(&resolved),
    })
}

fn mount_error(error: MountError) -> anyhow::Error {
    anyhow::Error::msg(error.message())
}

fn fresh_temp_dir(purpose: &str) -> Result<(Option<TempDir>, HostDir)> {
    let temp = tempfile::tempdir().with_context(|| format!("failed to create {purpose}"))?;
    let host = open_host_dir(temp.path()).with_context(|| format!("failed to open {purpose}"))?;
    Ok((Some(temp), host))
}
fn perform_cleanup(cleanup: &mut Cleanup) {
    let root = cleanup.root().clone();
    let mut inside: Vec<CapDir> = Vec::new();
    let mut names: Vec<Vec<_>> = Vec::new();
    loop {
        let current = inside.last().unwrap_or(root.cap_std());
        let event = match cleanup.action() {
            CleanupAction::Finish => return,
            CleanupAction::List => {
                let mut found = Vec::new();
                let event = match current.entries() {
                    Ok(entries) => {
                        let mut failure = None;
                        for entry in entries {
                            match entry {
                                Ok(entry) => {
                                    found.push(entry.file_name());
                                    cleanup.advance(CleanupEvent::Entry(Ok(())));
                                }
                                Err(error) => failure = Some(host_error(error)),
                            }
                            if failure.is_some() || cleanup.action() != CleanupAction::List {
                                break;
                            }
                        }
                        match failure {
                            Some(error) => CleanupEvent::Entry(Err(error)),
                            None => CleanupEvent::Listed,
                        }
                    }
                    Err(error) => CleanupEvent::Entry(Err(host_error(error))),
                };
                names.push(found);
                event
            }
            CleanupAction::Inspect(entry) => CleanupEvent::Found(
                current
                    .symlink_metadata(&names[names.len() - 1][entry as usize])
                    .map(host_metadata)
                    .map_err(host_error),
            ),
            CleanupAction::Descend(entry) => {
                match current.open_dir(&names[names.len() - 1][entry as usize]) {
                    Ok(child) => {
                        inside.push(child);
                        CleanupEvent::Entered(Ok(()))
                    }
                    Err(error) => CleanupEvent::Entered(Err(host_error(error))),
                }
            }
            CleanupAction::Unlink(entry) => CleanupEvent::Removed(
                current
                    .remove_file(&names[names.len() - 1][entry as usize])
                    .map_err(host_error),
            ),
            CleanupAction::RemoveChild(entry) => {
                inside.pop();
                names.pop();
                let around = inside.last().unwrap_or(root.cap_std());
                let name = &names[names.len() - 1][entry as usize];
                CleanupEvent::Removed(around.remove_dir(name).map_err(host_error))
            }
        };
        cleanup.advance(event);
    }
}
struct HostFs {
    fs: CapFs,
    // Owns the temporary directories that are mounted.
    temp_dirs: Vec<TempDir>,
}

impl Default for HostFs {
    fn default() -> Self {
        Self::new()
    }
}

impl HostFs {
    fn new() -> Self {
        Self::from_decisions(CapFs::new())
    }

    fn from_decisions(fs: CapFs) -> Self {
        Self {
            fs,
            temp_dirs: Vec::new(),
        }
    }

    fn with_limits(self, limits: FilesystemLimits) -> Self {
        Self {
            fs: self.fs.with_limits(limits),
            temp_dirs: self.temp_dirs,
        }
    }

    fn limits(&self) -> &FilesystemLimits {
        self.fs.limits()
    }
    fn mount(mut self, request: MountRequest) -> Result<Self> {
        let (temp, host) = match &request {
            MountRequest::Input(path) => {
                let context = || format!("failed to open input dir: {}", path.display());
                (None, open_host_dir(path).with_context(context)?)
            }
            MountRequest::Output(path, _, _) => {
                let context = || format!("failed to open output dir: {}", path.display());
                (None, open_host_dir(path).with_context(context)?)
            }
            MountRequest::TempOutput => fresh_temp_dir("output temp dir")?,
            MountRequest::Work(path, _) => (
                None,
                open_host_dir(path).context("failed to open work dir")?,
            ),
            MountRequest::Temp => fresh_temp_dir("temp dir")?,
        };
        self.temp_dirs.extend(temp);
        Ok(Self {
            fs: request.mount(self.fs, host).map_err(mount_error)?,
            temp_dirs: self.temp_dirs,
        })
    }
    fn with_input(self, input_path: impl AsRef<Path>) -> Result<Self> {
        self.mount(MountRequest::Input(input_path.as_ref().to_path_buf()))
    }
    fn with_temp_output(self) -> Result<Self> {
        self.mount(MountRequest::TempOutput)
    }
    fn with_output_dir(
        self,
        output_path: impl AsRef<Path>,
        dir_perms: DirPerms,
        file_perms: FilePerms,
    ) -> Result<Self> {
        let path = output_path.as_ref().to_path_buf();
        self.mount(MountRequest::Output(path, dir_perms, file_perms))
    }
    fn with_work(self, work_path: impl AsRef<Path>, access: WorkDirAccess) -> Result<Self> {
        let path = work_path.as_ref().to_path_buf();
        self.mount(MountRequest::Work(path, access))
    }
    fn with_temp_dir(self) -> Result<Self> {
        self.mount(MountRequest::Temp)
    }

    fn register_preopen(
        &mut self,
        dir: Dir,
        guest_path: &str,
        lifetime: MountLifetime,
    ) -> Result<u32, FsError> {
        self.fs.register_preopen(dir, guest_path, lifetime)
    }

    fn output_path(&self) -> Option<&PathBuf> {
        self.fs.output_path()
    }

    fn temp_path(&self) -> Option<&PathBuf> {
        self.fs.temp_path()
    }
    fn decisions(&self) -> &CapFs {
        &self.fs
    }

    fn write_output_path(&mut self, path: &str, data: Vec<u8>) -> Result<()> {
        let report = |error: OutputPathError| anyhow::Error::msg(error.message(path));
        let target = self.fs.write_output_path(path).map_err(report)?;
        let found = look_up(&target, false);
        self.fs
            .output_probed(found, data.len() as u64)
            .map_err(report)?;
        let mut file = target
            .dir()
            .cap_std()
            .create(target.path())
            .with_context(|| OutputPathError::CreateFailed.message(path))?;
        file.write_all(&data)
            .with_context(|| OutputPathError::WriteFailed.message(path))?;
        Ok(())
    }
    fn read_guest_file(&mut self, guest_path: &str) -> Result<Vec<u8>> {
        self.read_guest_file_or_report(guest_path)
            .map_err(|report| anyhow::Error::msg(report))
    }

    fn read_guest_file_or_report(&mut self, guest_path: &str) -> Result<Vec<u8>, String> {
        let report = |error: GuestFileError| error.message(guest_path);
        let target = self.fs.read_guest_file(guest_path).map_err(report)?;
        let opened = target.dir().cap_std().open(target.path());
        let reply = match &opened {
            Ok(file) => match file.metadata() {
                Ok(metadata) => GuestFileReply::Size(metadata.len()),
                Err(_) => GuestFileReply::NotSized,
            },
            Err(_) => GuestFileReply::NotOpened,
        };
        let amount = self.fs.guest_file_sized(reply).map_err(report)?;
        let file = opened.map_err(|_| report(GuestFileError::NotFound))?;
        let mut data = Vec::new();
        file.take(amount)
            .read_to_end(&mut data)
            .map_err(|_| report(GuestFileError::ReadFailed))?;
        Ok(data)
    }
    fn get_output_files(&self) -> Vec<String> {
        let mut listing = OutputListing::new();
        let entries = self
            .fs
            .get_output_files()
            .and_then(|dir| dir.cap_std().entries().ok());
        if let Some(entries) = entries {
            for entry in entries.flatten() {
                let name = entry.file_name().to_string_lossy().to_string();
                let is_file = entry.metadata().ok().map(|metadata| metadata.is_file());
                if !listing.note(name, is_file) {
                    break;
                }
            }
        }
        listing.files()
    }

    fn sweep(&mut self, mut sweep: Sweep) -> Sweep {
        while let Some(mut cleanup) = self.fs.next_mount(&sweep) {
            perform_cleanup(&mut cleanup);
            self.fs.mount_swept(&mut sweep, cleanup);
        }
        sweep
    }
    fn clear_ephemeral_mounts(&mut self) -> Result<(), FsError> {
        let sweep = self.fs.clear_ephemeral_mounts();
        self.sweep(sweep).result()
    }
    fn clear_mount(&mut self, mount_fd: u32) -> Result<(), FsError> {
        let mut cleanup = self.fs.clear_mount(mount_fd)?;
        perform_cleanup(&mut cleanup);
        self.fs.mount_cleared(cleanup)
    }
    fn prepare_for_run(&mut self) -> Result<(), FsError> {
        let sweep = self.fs.prepare_for_run();
        let sweep = self.sweep(sweep);
        self.fs.run_prepared(sweep)
    }
    fn clear(&mut self) -> Result<(), FsError> {
        let sweep = self.fs.clear();
        self.sweep(sweep).result()
    }

    fn get_dir(&self, fd: u32) -> Option<&Dir> {
        self.fs.get_dir(fd)
    }

    fn is_directory(&self, fd: u32) -> bool {
        self.fs.is_directory(fd)
    }

    fn dir_by_guest_path(&self, guest_path: &str) -> Option<&Dir> {
        self.fs.dir_by_guest_path(guest_path)
    }

    fn is_file(&self, fd: u32) -> bool {
        self.fs.is_file(fd)
    }

    fn file_size(&self, fd: u32) -> Option<u64> {
        let target = self.fs.file_size(fd)?;
        file_size_replied(look_up(&target, true))
    }

    fn find_file_in_dir(&self, dir_fd: u32, name: &str) -> Option<u32> {
        self.fs.find_file_in_dir(dir_fd, name)
    }

    fn file_dir_fd(&self, fd: u32) -> Option<u32> {
        self.fs.file_dir_fd(fd)
    }

    fn file_has_perms(&self, fd: u32, perms: FilePerms) -> bool {
        self.fs.file_has_perms(fd, perms)
    }

    fn get_type(&self, fd: u32) -> Result<DescriptorType, FsError> {
        self.fs.get_type(fd)
    }
    fn stat(&self, fd: u32) -> Result<DescriptorStat, FsError> {
        match self.fs.stat(fd)? {
            StatQuery::Known(stat) => Ok(stat),
            StatQuery::Ask(target) => stat_replied(look_up(&target, true)),
        }
    }
    fn stat_at(&self, dir_fd: u32, path: &str) -> Result<DescriptorStat, FsError> {
        self.stat_at_with_path_flags(dir_fd, path, PathFlags::SYMLINK_FOLLOW)
    }
    fn stat_at_with_path_flags(
        &self,
        dir_fd: u32,
        path: &str,
        path_flags: PathFlags,
    ) -> Result<DescriptorStat, FsError> {
        let request = self.fs.stat_at_with_path_flags(dir_fd, path, path_flags)?;
        let found = look_up(request.target(), request.follows_symlinks());
        request.replied(found)
    }

    fn get_flags(&self, fd: u32) -> Result<DescriptorFlags, FsError> {
        self.fs.get_flags(fd)
    }

    fn open_at(&mut self, dir_fd: u32, path: &str, flags: OpenFlags) -> Result<u32, FsError> {
        self.open_at_with_path_flags(dir_fd, path, PathFlags::SYMLINK_FOLLOW, flags)
    }
    fn open_at_with_path_flags(
        &mut self,
        dir_fd: u32,
        path: &str,
        path_flags: PathFlags,
        flags: OpenFlags,
    ) -> Result<u32, FsError> {
        let request = self
            .fs
            .open_at_with_path_flags(dir_fd, path, path_flags, flags)?;
        let found = look_up(request.target(), request.follows_symlinks());
        let request = self.fs.open_probed(request, found)?;
        if request.must_create() {
            let target = request.target();
            let created = target.dir().cap_std().create(target.path());
            checked(created.map_err(host_error))?;
        }
        let found = look_up(request.target(), request.follows_symlinks());
        let request = request.confirmed(found)?;
        let directory = if request.is_directory() {
            let target = request.target();
            let opened = target.dir().cap_std().open_dir(target.path());
            Some(checked(opened.map_err(host_error))?)
        } else {
            None
        };
        self.fs.opened(request, directory)
    }
    fn create_directory_at(&mut self, dir_fd: u32, path: &str) -> Result<(), FsError> {
        let target = self.fs.create_directory_at(dir_fd, path)?;
        let created = target.dir().cap_std().create_dir(target.path());
        checked(created.map_err(host_error))
    }
    fn remove_directory_at(&mut self, dir_fd: u32, path: &str) -> Result<(), FsError> {
        let removal = self.fs.remove_directory_at(dir_fd, path)?;
        let target = removal.target();
        let reply = target.dir().cap_std().remove_dir(target.path());
        self.fs.removed(removal, reply.map_err(host_error))
    }
    fn unlink_file_at(&mut self, dir_fd: u32, path: &str) -> Result<(), FsError> {
        match self.fs.unlink_file_at(dir_fd, path)? {
            Unlink::Remove(removal) => {
                let target = removal.target();
                let reply = target.dir().cap_std().remove_file(target.path());
                self.fs.removed(removal, reply.map_err(host_error))
            }
            Unlink::Refuse(target) => Err(unlink_refused(look_up(&target, false))),
        }
    }
    fn rename_at(
        &mut self,
        old_dir_fd: u32,
        old_path: &str,
        new_dir_fd: u32,
        new_path: &str,
    ) -> Result<(), FsError> {
        let mut rename = self
            .fs
            .rename_at(old_dir_fd, old_path, new_dir_fd, new_path)?;
        loop {
            let found = match rename.stage() {
                RenameStage::ProbeSource => look_up(rename.source(), false),
                RenameStage::ProbeDestination => look_up(rename.destination(), false),
                RenameStage::Move => break,
            };
            rename = rename.probed(found)?;
        }
        let reply = rename.source().dir().cap_std().rename(
            rename.source().path(),
            rename.destination().dir().cap_std(),
            rename.destination().path(),
        );
        self.fs.renamed(rename, reply.map_err(host_error))
    }

    fn close_descriptor(&mut self, fd: u32) -> Result<(), FsError> {
        self.fs.close_descriptor(fd)
    }

    fn close_file(&mut self, fd: u32) {
        self.fs.close_file(fd)
    }

    fn close_stream(&mut self, stream_id: u32) {
        self.fs.close_stream(stream_id)
    }

    fn close_dir_stream(&mut self, stream_id: u32) {
        self.fs.close_dir_stream(stream_id)
    }

    fn read_file(
        &mut self,
        fd: u32,
        offset: u64,
        len: u64,
    ) -> Result<(Vec<u8>, bool), FsError> {
        let request = self.fs.read_file(fd, offset, len)?;
        let target = request.target();
        let opened = target.dir().cap_std().open(target.path());
        let mut file = checked(opened.map_err(host_error))?;
        let size = file.metadata().map(|metadata| metadata.len());
        match self.fs.read_sized(request, size.map_err(host_error))? {
            ReadStep::Nothing => Ok((Vec::new(), true)),
            ReadStep::Read(plan) => {
                let reply = read_from(&mut file, plan.start, plan.amount);
                plan.read(reply.map_err(host_error))
            }
        }
    }

    fn write_file(&mut self, fd: u32, offset: u64, buffer: &[u8]) -> Result<u64, FsError> {
        let request = self.fs.write_file(fd, offset, buffer)?;
        perform_write(request, buffer)
    }

    fn create_read_stream(&mut self, file_fd: u32, offset: u64) -> Result<u32, FsError> {
        self.fs.create_read_stream(file_fd, offset)
    }

    fn create_write_stream(&mut self, file_fd: u32, offset: u64) -> Result<u32, FsError> {
        self.fs.create_write_stream(file_fd, offset)
    }

    fn create_append_stream(&mut self, file_fd: u32) -> Result<u32, FsError> {
        let target = self.fs.create_append_stream(file_fd)?;
        self.fs.append_sized(file_fd, look_up(&target, true))
    }

    fn stream_read(&mut self, stream_id: u32, len: u64) -> Result<Vec<u8>, FsError> {
        let request = self.fs.stream_read(stream_id, len)?;
        let target = request.target();
        let opened = target.dir().cap_std().open(target.path());
        let mut file = checked(opened.map_err(host_error))?;
        let size = file.metadata().map(|metadata| metadata.len());
        let plan = request.sized(size.map_err(host_error))?;
        let sought = file.seek(SeekFrom::Start(plan.offset)).map(|_| ());
        let amount = self.fs.stream_sought(&plan, sought.map_err(host_error))?;
        let mut buffer = vec![0u8; amount];
        let reply = file.read(&mut buffer).map(|n| {
            buffer.truncate(n);
            buffer
        });
        self.fs.stream_got(stream_id, reply.map_err(host_error))
    }

    fn stream_write(&mut self, stream_id: u32, buffer: &[u8]) -> Result<u64, FsError> {
        let write = self.fs.stream_write(stream_id, buffer)?;
        let written = perform_write(write.request, buffer)?;
        self.fs.stream_wrote(stream_id, written)
    }

    fn has_stream(&self, id: u32) -> bool {
        self.fs.has_stream(id)
    }

    fn is_write_stream(&self, id: u32) -> bool {
        self.fs.is_write_stream(id)
    }

    fn create_dir_stream(&mut self, dir_fd: u32) -> Result<u32, FsError> {
        let mut listing = self.fs.create_dir_stream(dir_fd)?;
        let entries = listing.dir().cap_std().entries();
        for entry in checked(entries.map_err(host_error))? {
            let entry = entry.map(|entry| HostEntry {
                name: entry.file_name().to_string_lossy().to_string(),
                is_dir: entry
                    .file_type()
                    .map(|kind| kind.is_dir())
                    .map_err(host_error),
            });
            self.fs
                .list_entry(&mut listing, entry.map_err(host_error))?;
        }
        self.fs.list_finished(listing)
    }

    fn read_dir_entry(&mut self, stream_id: u32) -> Option<Option<(String, bool)>> {
        self.fs.read_dir_entry(stream_id)
    }

    fn has_dir_stream(&self, id: u32) -> bool {
        self.fs.has_dir_stream(id)
    }

    fn preopens(&self) -> Vec<(u32, &str)> {
        self.fs.preopens()
    }
}

fn read_from(
    file: &mut cap_std::fs::File,
    start: u64,
    amount: usize,
) -> std::io::Result<Vec<u8>> {
    file.seek(SeekFrom::Start(start))?;
    let mut buffer = vec![0u8; amount];
    let n = file.read(&mut buffer)?;
    buffer.truncate(n);
    Ok(buffer)
}

fn perform_write(request: WriteRequest, buffer: &[u8]) -> Result<u64, FsError> {
    let mut options = OpenOptions::new();
    options.read(true).write(true);
    let target = request.target();
    let opened = target.dir().cap_std().open_with(target.path(), &options);
    let mut file = checked(opened.map_err(host_error))?;
    let size = file.metadata().map(|metadata| metadata.len());
    let plan = request.sized(size.map_err(host_error))?;
    let mut write = || {
        if let Some(new_end) = plan.extend_to {
            file.set_len(new_end)?;
        }
        file.seek(SeekFrom::Start(plan.offset))?;
        file.write_all(buffer)
    };
    let reply = write().map_err(host_error);
    plan.written(reply)
}

fn execute_cli(shell: &mut Toolbox, fs: &mut HostFs, script: &str) -> ExecutionResult {
    let mut run = shell.execute_cli(script);
    let mut action = ShellAction::Nothing;
    loop {
        action = match action {
            ShellAction::Done => return run.finish(),
            ShellAction::Nothing => shell.next(fs.decisions(), &mut run),
            ShellAction::Stat { fd, path } => {
                let found = fs.stat_at(fd, &path);
                shell.resume(&mut run, ShellEvent::Stat(found))
            }
            ShellAction::Read { path } => {
                let read = fs.read_guest_file(&path).map_err(|error| error.to_string());
                shell.file_read(&mut run, read)
            }
            ShellAction::Create { fd, path } => {
                let opened = fs.open_at(fd, &path, OpenFlags::CREATE).map(|_| ());
                shell.resume(&mut run, ShellEvent::Effect(opened))
            }
            ShellAction::MakeDirectory { fd, path } => {
                let created = fs.create_directory_at(fd, &path);
                shell.resume(&mut run, ShellEvent::Effect(created))
            }
            ShellAction::Unlink { fd, path } => {
                let removed = fs.unlink_file_at(fd, &path);
                shell.resume(&mut run, ShellEvent::Effect(removed))
            }
        };
    }
}

fn parent_dir(path: &Path) -> CapDir {
    CapDir::open_ambient_dir(path.parent().unwrap(), ambient_authority()).unwrap()
}

fn host_write(path: impl AsRef<Path>, data: impl AsRef<[u8]>) -> std::io::Result<()> {
    let path = path.as_ref();
    parent_dir(path).write(path.file_name().unwrap(), data)
}

fn host_read(path: impl AsRef<Path>) -> std::io::Result<Vec<u8>> {
    let path = path.as_ref();
    parent_dir(path).read(path.file_name().unwrap())
}

fn host_create_dir_all(path: impl AsRef<Path>) -> std::io::Result<()> {
    CapDir::create_ambient_dir_all(path, ambient_authority())
}

fn host_count(path: impl AsRef<Path>) -> usize {
    let dir = CapDir::open_ambient_dir(path, ambient_authority()).unwrap();
    dir.entries().unwrap().count()
}

fn host_symlink_metadata(path: impl AsRef<Path>) -> std::io::Result<Metadata> {
    let path = path.as_ref();
    parent_dir(path).symlink_metadata(path.file_name().unwrap())
}

fn symlink(original: impl AsRef<Path>, link: impl AsRef<Path>) -> std::io::Result<()> {
    let link = link.as_ref();
    parent_dir(link).symlink_contents(original, link.file_name().unwrap())
}

fn test_fs() -> (HostFs, tempfile::TempDir, tempfile::TempDir) {
    test_fs_with_limits(FilesystemLimits::default())
}

fn test_fs_with_limits(
    limits: FilesystemLimits,
) -> (HostFs, tempfile::TempDir, tempfile::TempDir) {
    let input = tempfile::tempdir().unwrap();
    let output = tempfile::tempdir().unwrap();
    let fs = HostFs::new()
        .with_limits(limits)
        .with_input(input.path())
        .unwrap()
        .with_output_dir(
            output.path(),
            DirPerms::READ | DirPerms::MUTATE,
            FilePerms::READ | FilePerms::WRITE,
        )
        .unwrap();
    (fs, input, output)
}

/// Helper: write a file directly into the input dir (simulates host setup).
fn host_write_input(input: &tempfile::TempDir, name: &str, data: &[u8]) {
    host_write(input.path().join(name), data).unwrap();
}

fn host_write_output(output: &tempfile::TempDir, name: &str, data: &[u8]) {
    host_write(output.path().join(name), data).unwrap();
}

fn host_create_dir(root: &tempfile::TempDir, name: &str) {
    host_create_dir_all(root.path().join(name)).unwrap();
}

/// Look up the fd for a preopen by guest path.
fn preopen_fd(fs: &HostFs, path: &str) -> u32 {
    fs.preopens()
        .into_iter()
        .find(|(_, p)| *p == path)
        .unwrap()
        .0
}

#[test]
fn guest_relative_path_accepts_and_normalizes_safe_paths() {
    let cases = [
        ("src/lib.rs", "src/lib.rs", false),
        ("./src/lib.rs", "src/lib.rs", false),
        ("src//./nested///lib.rs", "src/nested/lib.rs", false),
        (
            "dir with spaces/file.txt",
            "dir with spaces/file.txt",
            false,
        ),
        (".git/config", ".git/config", false),
        ("unicode/olá.txt", "unicode/olá.txt", false),
        ("src/", "src", true),
        ("src/.", "src", true),
    ];

    for (input, normalized, requires_directory) in cases {
        let parsed = GuestRelativePath::parse(input).unwrap();
        assert_eq!(parsed.as_path(), normalized);
        assert_eq!(parsed.requires_directory(), requires_directory);
    }
}

#[test]
fn guest_relative_path_rejects_unsafe_and_ambiguous_paths() {
    for path in [
        "",
        ".",
        "./",
        "..",
        "../secret",
        "a/../../secret",
        "/absolute/path",
        "a\\b",
        "C:\\secret",
        "C:/secret",
        "C:secret",
        "file\0name",
    ] {
        assert_eq!(
            GuestRelativePath::parse(path),
            Err(FsError::InvalidPath),
            "unexpected result for {path:?}"
        );
    }
}

#[test]
fn guest_relative_path_enforces_length_and_depth_limits() {
    let overlong = "a".repeat(MAX_GUEST_PATH_BYTES + 1);
    assert_eq!(
        GuestRelativePath::parse(&overlong),
        Err(FsError::InvalidPath)
    );

    let too_deep = std::iter::repeat_n("a", MAX_GUEST_PATH_COMPONENTS + 1)
        .collect::<Vec<_>>()
        .join("/");
    assert_eq!(
        GuestRelativePath::parse(&too_deep),
        Err(FsError::InvalidPath)
    );
}

/// Words of up to sixteen lower-case letters.
fn sample_words() -> Vec<&'static str> {
    vec!["", "a", "m", "z", "ab", "zz", "module", "abcdefghijklmnop"]
}

#[test]
fn guest_relative_path_never_accepts_parent_components() {
    for prefix in sample_words() {
        for suffix in sample_words() {
            let path = format!("{prefix}/../{suffix}");
            assert_eq!(GuestRelativePath::parse(&path), Err(FsError::InvalidPath));
        }
    }
}

#[test]
fn guest_relative_path_never_accepts_backslashes() {
    for prefix in sample_words() {
        for suffix in sample_words() {
            let path = format!("{prefix}\\{suffix}");
            assert_eq!(GuestRelativePath::parse(&path), Err(FsError::InvalidPath));
        }
    }
}

#[test]
fn input_is_readonly_preopen() {
    let (fs, _i, _o) = test_fs();
    let dir = fs.dir_by_guest_path("/input").unwrap();
    assert!(dir.perms().contains(DirPerms::READ));
    assert!(!dir.perms().contains(DirPerms::MUTATE));
    assert!(dir.file_perms().contains(FilePerms::READ));
    assert!(!dir.file_perms().contains(FilePerms::WRITE));
}

#[test]
fn guest_reads_host_provided_input() {
    let (mut fs, input, _o) = test_fs();
    host_write_input(&input, "test.txt", b"hello world");

    let input_fd = preopen_fd(&fs, "/input");
    let fd = fs
        .open_at(input_fd, "test.txt", OpenFlags::OPEN_EXISTING)
        .unwrap();
    let (data, _) = fs.read_file(fd, 0, 100).unwrap();
    assert_eq!(data, b"hello world");
}

#[test]
fn opened_directory_is_typed_and_lists_its_own_entries() {
    let (mut fs, input, _o) = test_fs();
    host_create_dir(&input, "src/nested");
    host_write_input(&input, "root.txt", b"root");
    host_write_input(&input, "src/lib.rs", b"pub fn library() {}");

    let input_fd = preopen_fd(&fs, "/input");
    let src_fd = fs.open_at(input_fd, "src", OpenFlags::DIRECTORY).unwrap();

    assert!(fs.is_directory(src_fd));
    assert_eq!(fs.get_type(src_fd), Ok(DescriptorType::Directory));
    assert_eq!(
        fs.stat(src_fd),
        Ok(DescriptorStat {
            descriptor_type: DescriptorType::Directory,
            size: 0,
        })
    );
    assert_eq!(
        fs.stat_at(src_fd, "lib.rs"),
        Ok(DescriptorStat {
            descriptor_type: DescriptorType::RegularFile,
            size: 19,
        })
    );

    let stream = fs.create_dir_stream(src_fd).unwrap();
    let mut entries = Vec::new();
    while let Some(Some(entry)) = fs.read_dir_entry(stream) {
        entries.push(entry);
    }
    entries.sort();
    assert_eq!(
        entries,
        vec![("lib.rs".to_string(), false), ("nested".to_string(), true)]
    );
}

#[test]
fn open_at_and_stat_at_accept_safe_nested_paths() {
    let (mut fs, input, _o) = test_fs();
    host_create_dir(&input, "src/nested");
    host_create_dir(&input, "dir with spaces");
    host_create_dir(&input, ".git");
    host_create_dir(&input, "unicode");
    host_write_input(&input, "src/nested/lib.rs", b"nested");
    host_write_input(&input, "dir with spaces/file.txt", b"spaces");
    host_write_input(&input, ".git/config", b"git");
    host_write_input(&input, "unicode/olá.txt", b"unicode");

    let input_fd = preopen_fd(&fs, "/input");
    for (path, contents) in [
        ("./src/nested/lib.rs", b"nested".as_slice()),
        ("dir with spaces/file.txt", b"spaces".as_slice()),
        (".git/config", b"git".as_slice()),
        ("unicode/olá.txt", b"unicode".as_slice()),
    ] {
        let fd = fs
            .open_at(input_fd, path, OpenFlags::OPEN_EXISTING)
            .unwrap();
        assert_eq!(fs.read_file(fd, 0, 100).unwrap().0, contents);
        assert_eq!(
            fs.stat_at(input_fd, path).unwrap().descriptor_type,
            DescriptorType::RegularFile
        );
    }
}

#[test]
fn nested_path_is_composed_with_an_opened_directory_identity() {
    let (mut fs, input, _o) = test_fs();
    host_create_dir(&input, "src/nested");
    host_write_input(&input, "src/nested/lib.rs", b"nested");

    let input_fd = preopen_fd(&fs, "/input");
    let src_fd = fs.open_at(input_fd, "src", OpenFlags::DIRECTORY).unwrap();
    let file_fd = fs
        .open_at(src_fd, "./nested/lib.rs", OpenFlags::OPEN_EXISTING)
        .unwrap();

    assert_eq!(fs.read_file(file_fd, 0, 100).unwrap().0, b"nested");
    assert_eq!(
        fs.decisions().file_size(file_fd).unwrap().path(),
        "src/nested/lib.rs"
    );
}

#[test]
fn nested_path_composition_enforces_total_depth_limit() {
    let (mut fs, input, _o) = test_fs();
    let parent_path = std::iter::repeat_n("a", 200).collect::<Vec<_>>().join("/");
    host_create_dir(&input, &parent_path);

    let input_fd = preopen_fd(&fs, "/input");
    let parent_fd = fs
        .open_at(input_fd, &parent_path, OpenFlags::DIRECTORY)
        .unwrap();
    let child_path = std::iter::repeat_n("b", 57).collect::<Vec<_>>().join("/");

    assert_eq!(
        fs.open_at(parent_fd, &child_path, OpenFlags::OPEN_EXISTING),
        Err(FsError::InvalidPath)
    );
}

#[test]
fn file_opened_relative_to_directory_survives_parent_close() {
    let (mut fs, input, _o) = test_fs();
    host_create_dir(&input, "src");
    host_write_input(&input, "src/lib.rs", b"nested file");

    let input_fd = preopen_fd(&fs, "/input");
    let src_fd = fs.open_at(input_fd, "src", OpenFlags::DIRECTORY).unwrap();
    let file_fd = fs
        .open_at(src_fd, "lib.rs", OpenFlags::OPEN_EXISTING)
        .unwrap();

    assert_eq!(fs.file_dir_fd(file_fd), Some(src_fd));
    assert_eq!(fs.get_type(file_fd), Ok(DescriptorType::RegularFile));
    assert_eq!(fs.read_file(file_fd, 0, 100).unwrap().0, b"nested file");

    fs.close_descriptor(src_fd).unwrap();
    assert_eq!(fs.get_type(src_fd), Err(FsError::BadDescriptor));
    assert_eq!(fs.read_file(file_fd, 0, 100).unwrap().0, b"nested file");
    assert_eq!(
        fs.get_flags(file_fd),
        Ok(DescriptorFlags {
            read: true,
            write: false,
            mutate_directory: false,
        })
    );
}

#[test]
fn file_created_through_nested_directory_descriptors_uses_root_relative_path() {
    let (mut fs, _i, output) = test_fs();
    host_create_dir(&output, "build/cache");

    let output_fd = preopen_fd(&fs, "/output");
    let build_fd = fs
        .open_at(output_fd, "build", OpenFlags::DIRECTORY)
        .unwrap();
    let cache_fd = fs.open_at(build_fd, "cache", OpenFlags::DIRECTORY).unwrap();
    let file_fd = fs
        .open_at(cache_fd, "result.txt", OpenFlags::CREATE)
        .unwrap();

    fs.write_file(file_fd, 0, b"nested output").unwrap();
    assert_eq!(
        host_read(output.path().join("build/cache/result.txt")).unwrap(),
        b"nested output"
    );
    assert_eq!(fs.read_file(file_fd, 0, 100).unwrap().0, b"nested output");
}

#[test]
fn opening_same_path_returns_independent_descriptors() {
    let (mut fs, input, _o) = test_fs();
    host_write_input(&input, "same.txt", b"same contents");

    let input_fd = preopen_fd(&fs, "/input");
    let first = fs
        .open_at(input_fd, "same.txt", OpenFlags::OPEN_EXISTING)
        .unwrap();
    let second = fs
        .open_at(input_fd, "same.txt", OpenFlags::OPEN_EXISTING)
        .unwrap();

    assert_ne!(first, second);
    fs.close_descriptor(first).unwrap();
    assert_eq!(fs.get_type(first), Err(FsError::BadDescriptor));
    assert_eq!(fs.read_file(second, 0, 100).unwrap().0, b"same contents");
}

#[test]
fn output_write_and_collect() {
    let (mut fs, _i, _o) = test_fs();
    let output_fd = preopen_fd(&fs, "/output");
    let fd = fs.open_at(output_fd, "out.txt", OpenFlags::CREATE).unwrap();
    fs.write_file(fd, 0, b"result").unwrap();
    let files = fs.get_output_files();
    assert!(files.contains(&"out.txt".to_string()));
    let output_dir = fs.output_path().unwrap();
    assert_eq!(
        host_read(output_dir.join("out.txt")).unwrap(),
        b"result"
    );
}

#[test]
fn clear_output_preserves_input() {
    let (mut fs, input, _o) = test_fs();
    host_write_input(&input, "keep.txt", b"input");
    fs.write_output_path("/output/gone.txt", b"output".to_vec())
        .unwrap();

    fs.clear_ephemeral_mounts().unwrap();

    let input_fd = preopen_fd(&fs, "/input");
    let fd = fs
        .open_at(input_fd, "keep.txt", OpenFlags::OPEN_EXISTING)
        .unwrap();
    let (data, _) = fs.read_file(fd, 0, 100).unwrap();
    assert_eq!(data, b"input");
    assert!(fs.get_output_files().is_empty());
}

#[test]
fn clear_output_invalidates_only_output_descriptors() {
    let (mut fs, input, output) = test_fs();
    host_create_dir(&input, "src");
    host_write_input(&input, "src/lib.rs", b"input");
    host_create_dir(&output, "build");
    host_write_output(&output, "build/result.txt", b"output");

    let input_fd = preopen_fd(&fs, "/input");
    let output_fd = preopen_fd(&fs, "/output");
    let input_dir = fs.open_at(input_fd, "src", OpenFlags::DIRECTORY).unwrap();
    let input_file = fs
        .open_at(input_dir, "lib.rs", OpenFlags::OPEN_EXISTING)
        .unwrap();
    let output_dir = fs
        .open_at(output_fd, "build", OpenFlags::DIRECTORY)
        .unwrap();
    let output_file = fs
        .open_at(output_dir, "result.txt", OpenFlags::OPEN_EXISTING)
        .unwrap();

    fs.clear_ephemeral_mounts().unwrap();

    assert_eq!(fs.get_type(input_dir), Ok(DescriptorType::Directory));
    assert_eq!(fs.read_file(input_file, 0, 100).unwrap().0, b"input");
    assert_eq!(fs.get_type(output_dir), Err(FsError::BadDescriptor));
    assert_eq!(fs.get_type(output_file), Err(FsError::BadDescriptor));
    assert_eq!(fs.get_type(output_fd), Ok(DescriptorType::Directory));
}

#[test]
fn prepare_for_run_recursively_clears_output_and_preserves_the_root() {
    let (mut fs, input, output) = test_fs();
    host_write_input(&input, "keep.txt", b"input");
    host_create_dir(&output, "build/cache/deep");
    host_write_output(&output, "build/cache/deep/result.txt", b"output");
    host_write_output(&output, "top.txt", b"output");

    fs.prepare_for_run().unwrap();

    assert!(output.path().is_dir());
    assert_eq!(host_count(output.path()), 0);
    assert_eq!(
        host_read(input.path().join("keep.txt")).unwrap(),
        b"input"
    );
}
#[test]
fn recursive_cleanup_unlinks_directory_symlinks_without_following_them() {
    let (mut fs, _input, output) = test_fs();
    let outside = tempfile::tempdir().unwrap();
    host_write_output(&outside, "keep.txt", b"outside");
    symlink(outside.path(), output.path().join("outside-link")).unwrap();

    fs.prepare_for_run().unwrap();

    assert!(!output.path().join("outside-link").exists());
    assert_eq!(
        host_read(outside.path().join("keep.txt")).unwrap(),
        b"outside"
    );
}

#[test]
fn cleanup_bound_failure_is_returned_and_invalidates_mount_handles() {
    let limits = FilesystemLimits {
        max_cleanup_entries: 1,
        ..FilesystemLimits::default()
    };
    let (mut fs, _input, output) = test_fs_with_limits(limits);
    host_write_output(&output, "one.txt", b"one");
    host_write_output(&output, "two.txt", b"two");

    let output_fd = preopen_fd(&fs, "/output");
    let file_fd = fs
        .open_at(output_fd, "one.txt", OpenFlags::OPEN_EXISTING)
        .unwrap();

    assert_eq!(fs.prepare_for_run(), Err(FsError::Quota));
    assert_eq!(fs.get_type(file_fd), Err(FsError::BadDescriptor));
    assert!(!fs.get_output_files().is_empty());
}

#[test]
fn failed_cleanup_does_not_reset_the_previous_run_budget() {
    let limits = FilesystemLimits {
        max_creations_per_run: 1,
        max_cleanup_entries: 1,
        ..FilesystemLimits::default()
    };
    let (mut fs, _input, output) = test_fs_with_limits(limits);
    host_write_output(&output, "one.txt", b"one");
    host_write_output(&output, "two.txt", b"two");
    let output_fd = preopen_fd(&fs, "/output");
    fs.open_at(output_fd, "created.txt", OpenFlags::CREATE)
        .unwrap();

    assert_eq!(fs.prepare_for_run(), Err(FsError::Quota));
    assert_eq!(
        fs.create_directory_at(output_fd, "still-blocked"),
        Err(FsError::Quota)
    );
}

#[test]
fn cleanup_handle_recalculation_preserves_live_input_stream_ids() {
    let (mut fs, input, output) = test_fs();
    host_write_input(&input, "first.txt", b"first");
    host_write_input(&input, "second.txt", b"second");
    host_write_output(&output, "gone.txt", b"gone");
    let input_fd = preopen_fd(&fs, "/input");
    let output_fd = preopen_fd(&fs, "/output");
    let first_fd = fs
        .open_at(input_fd, "first.txt", OpenFlags::OPEN_EXISTING)
        .unwrap();
    let input_stream = fs.create_read_stream(first_fd, 0).unwrap();
    fs.open_at(output_fd, "gone.txt", OpenFlags::OPEN_EXISTING)
        .unwrap();

    fs.clear_ephemeral_mounts().unwrap();
    let second_fd = fs
        .open_at(input_fd, "second.txt", OpenFlags::OPEN_EXISTING)
        .unwrap();

    assert_ne!(second_fd, input_stream);
    assert!(fs.has_stream(input_stream));
}

#[test]
fn cleanup_depth_failure_is_returned() {
    let limits = FilesystemLimits {
        max_recursive_depth: 1,
        ..FilesystemLimits::default()
    };
    let (mut fs, _input, output) = test_fs_with_limits(limits);
    host_create_dir(&output, "one/two");
    host_write_output(&output, "one/two/file.txt", b"data");

    assert_eq!(fs.prepare_for_run(), Err(FsError::Quota));
    assert!(output.path().join("one/two/file.txt").is_file());
}

#[test]
fn clear_mount_rejects_persistent_input() {
    let (mut fs, input, _output) = test_fs();
    host_write_input(&input, "keep.txt", b"input");
    let input_fd = preopen_fd(&fs, "/input");

    assert_eq!(fs.clear_mount(input_fd), Err(FsError::NotPermitted));
    assert!(input.path().join("keep.txt").is_file());
}

#[test]
fn default_temp_output() {
    let input = tempfile::tempdir().unwrap();
    let mut fs = HostFs::new()
        .with_input(input.path())
        .unwrap()
        .with_temp_output()
        .unwrap();

    let output_fd = preopen_fd(&fs, "/output");
    let fd = fs
        .open_at(output_fd, "test.txt", OpenFlags::CREATE)
        .unwrap();
    fs.write_file(fd, 0, b"works").unwrap();
    let files = fs.get_output_files();
    assert!(files.contains(&"test.txt".to_string()));
    let output_dir = fs.output_path().unwrap();
    assert_eq!(
        host_read(output_dir.join("test.txt")).unwrap(),
        b"works"
    );
}

#[test]
fn no_input_dir() {
    let fs = HostFs::new();
    assert!(fs.dir_by_guest_path("/input").is_none());
    assert!(fs.dir_by_guest_path("/output").is_none());
    assert_eq!(fs.preopens().len(), 0);
}

#[test]
fn stream_file_backed() {
    let (mut fs, _i, _o) = test_fs();
    let output_fd = preopen_fd(&fs, "/output");
    let fd = fs.open_at(output_fd, "s.txt", OpenFlags::CREATE).unwrap();
    let ws = fs.create_write_stream(fd, 0).unwrap();
    fs.stream_write(ws, b"hello ").unwrap();
    fs.stream_write(ws, b"world").unwrap();
    let rs = fs.create_read_stream(fd, 0).unwrap();
    assert_eq!(fs.stream_read(rs, 100).unwrap(), b"hello world");
}

#[test]
fn open_at_rejects_bad_paths() {
    let (mut fs, _i, output) = test_fs();
    let output_fd = preopen_fd(&fs, "/output");
    host_create_dir(&output, "a");
    host_create_dir(&output, "trailing");

    // Path traversal
    assert_eq!(
        fs.open_at(output_fd, "../x", OpenFlags::CREATE),
        Err(FsError::InvalidPath)
    );
    assert_eq!(
        fs.open_at(output_fd, "../../etc/passwd", OpenFlags::CREATE),
        Err(FsError::InvalidPath)
    );

    // Parent components are rejected even when a lexical normalization
    // would appear to remain under the preopen.
    assert_eq!(
        fs.open_at(output_fd, "a/../../x", OpenFlags::CREATE),
        Err(FsError::InvalidPath)
    );

    // Backslash separators
    assert_eq!(
        fs.open_at(output_fd, "a\\b", OpenFlags::CREATE),
        Err(FsError::InvalidPath)
    );
    assert_eq!(
        fs.open_at(output_fd, "..\\x", OpenFlags::CREATE),
        Err(FsError::InvalidPath)
    );
    assert_eq!(
        fs.open_at(output_fd, "C:/secret", OpenFlags::CREATE),
        Err(FsError::InvalidPath)
    );

    // Special names
    assert_eq!(
        fs.open_at(output_fd, ".", OpenFlags::CREATE),
        Err(FsError::InvalidPath)
    );
    assert_eq!(
        fs.open_at(output_fd, "..", OpenFlags::CREATE),
        Err(FsError::InvalidPath)
    );
    assert_eq!(
        fs.open_at(output_fd, "", OpenFlags::CREATE),
        Err(FsError::InvalidPath)
    );

    // Null bytes and whitespace tricks
    assert_eq!(
        fs.open_at(output_fd, "\0", OpenFlags::CREATE),
        Err(FsError::InvalidPath)
    );
    assert_eq!(
        fs.open_at(output_fd, "file\0.txt", OpenFlags::CREATE),
        Err(FsError::InvalidPath)
    );

    // Absolute paths are never accepted.
    assert_eq!(
        fs.open_at(output_fd, "/absolute", OpenFlags::CREATE),
        Err(FsError::InvalidPath)
    );

    // A trailing slash is operation-sensitive: it works for a directory
    // but cannot be used to create or open a regular file.
    assert!(
        fs.open_at(output_fd, "trailing/", OpenFlags::DIRECTORY)
            .is_ok()
    );
    assert_eq!(
        fs.open_at(output_fd, "file.txt/", OpenFlags::CREATE),
        Err(FsError::NoEntry)
    );

    // Invalid descriptor
    assert_eq!(
        fs.open_at(999, "file.txt", OpenFlags::CREATE),
        Err(FsError::BadDescriptor)
    );

    // Valid names should work
    assert!(fs.open_at(output_fd, "file.txt", OpenFlags::CREATE).is_ok());
    assert!(fs.open_at(output_fd, "a/b.txt", OpenFlags::CREATE).is_ok());
    assert!(
        fs.open_at(output_fd, "./a//./c.txt", OpenFlags::CREATE)
            .is_ok()
    );
    assert!(fs.open_at(output_fd, ".hidden", OpenFlags::CREATE).is_ok());
    assert!(
        fs.open_at(output_fd, "file-name_v2.tar.gz", OpenFlags::CREATE)
            .is_ok()
    );
}

#[test]
fn directory_flag_rejects_regular_file() {
    let (mut fs, input, _o) = test_fs();
    host_write_input(&input, "file.txt", b"data");
    let input_fd = preopen_fd(&fs, "/input");

    assert_eq!(
        fs.open_at(input_fd, "file.txt", OpenFlags::DIRECTORY),
        Err(FsError::NoEntry)
    );
}

#[test]
fn close_descriptor_invalidates_derived_streams() {
    let (mut fs, _i, output) = test_fs();
    host_create_dir(&output, "dir");
    let output_fd = preopen_fd(&fs, "/output");

    let file_fd = fs
        .open_at(output_fd, "file.txt", OpenFlags::CREATE)
        .unwrap();
    fs.write_file(file_fd, 0, b"data").unwrap();
    let file_stream = fs.create_read_stream(file_fd, 0).unwrap();

    let dir_fd = fs.open_at(output_fd, "dir", OpenFlags::DIRECTORY).unwrap();
    let dir_stream = fs.create_dir_stream(dir_fd).unwrap();

    fs.close_descriptor(file_fd).unwrap();
    assert!(!fs.has_stream(file_stream));
    assert_eq!(fs.stream_read(file_stream, 1), Err(FsError::BadDescriptor));

    fs.close_descriptor(dir_fd).unwrap();
    assert!(!fs.has_dir_stream(dir_stream));
    assert_eq!(fs.read_dir_entry(dir_stream), None);
}

#[test]
fn preopen_descriptor_cannot_be_closed() {
    let (mut fs, _i, _o) = test_fs();
    let input_fd = preopen_fd(&fs, "/input");

    assert_eq!(fs.close_descriptor(input_fd), Err(FsError::NotPermitted));
    assert_eq!(fs.get_type(input_fd), Ok(DescriptorType::Directory));
}

#[test]
fn input_is_readonly_no_create() {
    let (mut fs, _i, _o) = test_fs();
    let input_fd = preopen_fd(&fs, "/input");
    assert_eq!(
        fs.open_at(input_fd, "new.txt", OpenFlags::CREATE),
        Err(FsError::NotPermitted)
    );
}

#[test]
fn input_is_readonly_no_truncate() {
    let (mut fs, input, _o) = test_fs();
    host_write_input(&input, "existing.txt", b"data");
    let input_fd = preopen_fd(&fs, "/input");
    let fd = fs
        .open_at(input_fd, "existing.txt", OpenFlags::OPEN_EXISTING)
        .unwrap();
    assert!(fs.read_file(fd, 0, 100).is_ok());
    assert_eq!(
        fs.open_at(input_fd, "existing.txt", OpenFlags::TRUNCATE),
        Err(FsError::NotPermitted)
    );
}

#[test]
fn input_file_perms_are_read_only() {
    let (mut fs, input, _o) = test_fs();
    host_write_input(&input, "readonly.txt", b"original");
    let input_fd = preopen_fd(&fs, "/input");
    let fd = fs
        .open_at(input_fd, "readonly.txt", OpenFlags::OPEN_EXISTING)
        .unwrap();
    assert!(fs.file_has_perms(fd, FilePerms::READ));
    assert!(!fs.file_has_perms(fd, FilePerms::WRITE));
}

#[test]
fn output_allows_read_and_write() {
    let (mut fs, _i, _o) = test_fs();
    let output_fd = preopen_fd(&fs, "/output");
    let fd = fs.open_at(output_fd, "rw.txt", OpenFlags::CREATE).unwrap();
    assert!(fs.file_has_perms(fd, FilePerms::READ));
    assert!(fs.file_has_perms(fd, FilePerms::WRITE));
    fs.write_file(fd, 0, b"hello").unwrap();
    let (data, _) = fs.read_file(fd, 0, 100).unwrap();
    assert_eq!(data, b"hello");
}

#[test]
fn dir_perms_correct() {
    let (fs, _i, _o) = test_fs();
    let input = fs.get_dir(preopen_fd(&fs, "/input")).unwrap();
    assert!(input.perms().contains(DirPerms::READ));
    assert!(!input.perms().contains(DirPerms::MUTATE));

    let output = fs.get_dir(preopen_fd(&fs, "/output")).unwrap();
    assert!(output.perms().contains(DirPerms::READ));
    assert!(output.perms().contains(DirPerms::MUTATE));
}

#[test]
fn custom_output_perms_respected() {
    let output = tempfile::tempdir().unwrap();
    let fs = HostFs::new()
        .with_output_dir(output.path(), DirPerms::MUTATE, FilePerms::WRITE)
        .unwrap();
    let output_fd = preopen_fd(&fs, "/output");
    let dir = fs.get_dir(output_fd).unwrap();
    assert!(!dir.perms().contains(DirPerms::READ));
    assert!(dir.perms().contains(DirPerms::MUTATE));
    assert!(!dir.file_perms().contains(FilePerms::READ));
    assert!(dir.file_perms().contains(FilePerms::WRITE));
}

// ── Metadata tests ─────────────────────────────────────────────

#[test]
fn get_type_directory() {
    let (fs, _i, _o) = test_fs();
    let input_fd = preopen_fd(&fs, "/input");
    let output_fd = preopen_fd(&fs, "/output");
    assert_eq!(fs.get_type(input_fd).unwrap(), DescriptorType::Directory);
    assert_eq!(fs.get_type(output_fd).unwrap(), DescriptorType::Directory);
}

#[test]
fn get_type_file() {
    let (mut fs, input, _o) = test_fs();
    host_write_input(&input, "test.txt", b"data");
    let input_fd = preopen_fd(&fs, "/input");
    let fd = fs
        .open_at(input_fd, "test.txt", OpenFlags::OPEN_EXISTING)
        .unwrap();
    assert_eq!(fs.get_type(fd).unwrap(), DescriptorType::RegularFile);
}

#[test]
fn get_type_invalid_fd() {
    let (fs, _i, _o) = test_fs();
    assert_eq!(fs.get_type(999), Err(FsError::BadDescriptor));
}

#[test]
fn stat_directory() {
    let (fs, _i, _o) = test_fs();
    let input_fd = preopen_fd(&fs, "/input");
    let s = fs.stat(input_fd).unwrap();
    assert_eq!(s.descriptor_type, DescriptorType::Directory);
    assert_eq!(s.size, 0);
}

#[test]
fn stat_file_reports_size() {
    let (mut fs, _i, _o) = test_fs();
    let output_fd = preopen_fd(&fs, "/output");
    let fd = fs
        .open_at(output_fd, "data.bin", OpenFlags::CREATE)
        .unwrap();
    fs.write_file(fd, 0, b"hello").unwrap();
    let s = fs.stat(fd).unwrap();
    assert_eq!(s.descriptor_type, DescriptorType::RegularFile);
    assert_eq!(s.size, 5);
}

#[test]
fn stat_invalid_fd() {
    let (fs, _i, _o) = test_fs();
    assert_eq!(fs.stat(999), Err(FsError::BadDescriptor));
}

#[test]
fn stat_at_existing_file() {
    let (fs, input, _o) = test_fs();
    host_write_input(&input, "readme.md", b"# Hello");
    let input_fd = preopen_fd(&fs, "/input");
    let s = fs.stat_at(input_fd, "readme.md").unwrap();
    assert_eq!(s.descriptor_type, DescriptorType::RegularFile);
    assert_eq!(s.size, 7);
}

#[test]
fn stat_at_missing_file() {
    let (fs, _i, _o) = test_fs();
    let input_fd = preopen_fd(&fs, "/input");
    assert_eq!(fs.stat_at(input_fd, "nope.txt"), Err(FsError::NoEntry));
}

#[test]
fn stat_at_requires_read_perm() {
    let output = tempfile::tempdir().unwrap();
    host_write(output.path().join("file.txt"), b"data").unwrap();
    let fs = HostFs::new()
        .with_output_dir(output.path(), DirPerms::MUTATE, FilePerms::WRITE)
        .unwrap();
    let output_fd = preopen_fd(&fs, "/output");
    assert_eq!(
        fs.stat_at(output_fd, "file.txt"),
        Err(FsError::NotPermitted)
    );
}

#[test]
fn stat_at_invalid_fd() {
    let (fs, _i, _o) = test_fs();
    assert_eq!(fs.stat_at(999, "file.txt"), Err(FsError::BadDescriptor));
}

#[test]
fn get_flags_input_directory() {
    let (fs, _i, _o) = test_fs();
    let input_fd = preopen_fd(&fs, "/input");
    let f = fs.get_flags(input_fd).unwrap();
    assert!(f.read);
    assert!(!f.write);
    assert!(!f.mutate_directory);
}

#[test]
fn get_flags_output_directory() {
    let (fs, _i, _o) = test_fs();
    let output_fd = preopen_fd(&fs, "/output");
    let f = fs.get_flags(output_fd).unwrap();
    assert!(f.read);
    assert!(f.write);
    assert!(f.mutate_directory);
}

#[test]
fn get_flags_input_file() {
    let (mut fs, input, _o) = test_fs();
    host_write_input(&input, "x.txt", b"data");
    let input_fd = preopen_fd(&fs, "/input");
    let fd = fs
        .open_at(input_fd, "x.txt", OpenFlags::OPEN_EXISTING)
        .unwrap();
    let f = fs.get_flags(fd).unwrap();
    assert!(f.read);
    assert!(!f.write);
    assert!(!f.mutate_directory);
}

#[test]
fn get_flags_output_file() {
    let (mut fs, _i, _o) = test_fs();
    let output_fd = preopen_fd(&fs, "/output");
    let fd = fs.open_at(output_fd, "out.txt", OpenFlags::CREATE).unwrap();
    let f = fs.get_flags(fd).unwrap();
    assert!(f.read);
    assert!(f.write);
    assert!(!f.mutate_directory);
}

#[test]
fn get_flags_invalid_fd() {
    let (fs, _i, _o) = test_fs();
    assert_eq!(fs.get_flags(999), Err(FsError::BadDescriptor));
}

// ── Permission denial tests ─────────────────────────────────────

#[test]
fn read_file_denied_without_read_perm() {
    let output = tempfile::tempdir().unwrap();
    host_write(output.path().join("secret.txt"), b"data").unwrap();
    let mut fs = HostFs::new()
        .with_output_dir(
            output.path(),
            DirPerms::READ | DirPerms::MUTATE,
            FilePerms::WRITE,
        )
        .unwrap();
    let output_fd = preopen_fd(&fs, "/output");
    let fd = fs
        .open_at(output_fd, "secret.txt", OpenFlags::OPEN_EXISTING)
        .unwrap();
    assert_eq!(fs.read_file(fd, 0, 100), Err(FsError::NotPermitted));
}

#[test]
fn write_file_denied_without_write_perm() {
    let (mut fs, input, _o) = test_fs();
    host_write_input(&input, "ro.txt", b"data");
    let input_fd = preopen_fd(&fs, "/input");
    let fd = fs
        .open_at(input_fd, "ro.txt", OpenFlags::OPEN_EXISTING)
        .unwrap();
    assert_eq!(fs.write_file(fd, 0, b"hacked"), Err(FsError::NotPermitted));
}

#[test]
fn create_read_stream_denied_without_read_perm() {
    let output = tempfile::tempdir().unwrap();
    host_write(output.path().join("f.txt"), b"data").unwrap();
    let mut fs = HostFs::new()
        .with_output_dir(
            output.path(),
            DirPerms::READ | DirPerms::MUTATE,
            FilePerms::WRITE,
        )
        .unwrap();
    let output_fd = preopen_fd(&fs, "/output");
    let fd = fs
        .open_at(output_fd, "f.txt", OpenFlags::OPEN_EXISTING)
        .unwrap();
    assert_eq!(fs.create_read_stream(fd, 0), Err(FsError::NotPermitted));
}

#[test]
fn create_write_stream_denied_without_write_perm() {
    let (mut fs, input, _o) = test_fs();
    host_write_input(&input, "ro.txt", b"data");
    let input_fd = preopen_fd(&fs, "/input");
    let fd = fs
        .open_at(input_fd, "ro.txt", OpenFlags::OPEN_EXISTING)
        .unwrap();
    assert_eq!(fs.create_write_stream(fd, 0), Err(FsError::NotPermitted));
}

#[test]
fn create_append_stream_denied_without_write_perm() {
    let (mut fs, input, _o) = test_fs();
    host_write_input(&input, "ro.txt", b"data");
    let input_fd = preopen_fd(&fs, "/input");
    let fd = fs
        .open_at(input_fd, "ro.txt", OpenFlags::OPEN_EXISTING)
        .unwrap();
    assert_eq!(fs.create_append_stream(fd), Err(FsError::NotPermitted));
}

#[test]
fn create_dir_stream_denied_without_read_perm() {
    let output = tempfile::tempdir().unwrap();
    let mut fs = HostFs::new()
        .with_output_dir(output.path(), DirPerms::MUTATE, FilePerms::WRITE)
        .unwrap();
    let output_fd = preopen_fd(&fs, "/output");
    assert_eq!(fs.create_dir_stream(output_fd), Err(FsError::NotPermitted));
}

#[test]
fn write_output_path_denied_without_write_perm() {
    let output = tempfile::tempdir().unwrap();
    let mut fs = HostFs::new()
        .with_output_dir(output.path(), DirPerms::READ, FilePerms::READ)
        .unwrap();
    assert!(
        fs.write_output_path("/output/test.txt", b"data".to_vec())
            .is_err()
    );
}

#[test]
fn read_guest_file_works() {
    let (mut fs, input, _o) = test_fs();
    host_write_input(&input, "hello.txt", b"world");
    let data = fs.read_guest_file("/input/hello.txt").unwrap();
    assert_eq!(data, b"world");
}

#[test]
fn host_file_helpers_use_the_same_nested_path_policy() {
    let (mut fs, input, output) = test_fs();
    host_create_dir(&input, "nested/input");
    host_create_dir(&output, "nested/output");
    host_write_input(&input, "nested/input/file.txt", b"input");

    assert_eq!(
        fs.read_guest_file("/input/./nested/input/file.txt")
            .unwrap(),
        b"input"
    );
    fs.write_output_path("/output/nested/output/file.txt", b"output".to_vec())
        .unwrap();
    assert_eq!(
        host_read(output.path().join("nested/output/file.txt")).unwrap(),
        b"output"
    );

    assert!(fs.read_guest_file("/input/nested/../file.txt").is_err());
    assert!(
        fs.write_output_path("/output/nested/../escape.txt", Vec::new())
            .is_err()
    );
}

#[test]
fn read_guest_file_denied_without_read_perm() {
    let output = tempfile::tempdir().unwrap();
    host_write(output.path().join("f.txt"), b"data").unwrap();
    let mut fs = HostFs::new()
        .with_output_dir(output.path(), DirPerms::MUTATE, FilePerms::WRITE)
        .unwrap();
    assert!(fs.read_guest_file("/output/f.txt").is_err());
}

#[test]
fn read_guest_file_missing() {
    let (mut fs, _i, _o) = test_fs();
    assert!(fs.read_guest_file("/input/nope.txt").is_err());
}

#[test]
fn read_guest_file_outside_preopens() {
    let (mut fs, _i, _o) = test_fs();
    assert!(fs.read_guest_file("/etc/passwd").is_err());
    assert!(fs.read_guest_file("/tmp/something").is_err());
    assert!(fs.read_guest_file("/secret/data.txt").is_err());
}

#[test]
fn read_guest_file_traversal() {
    let (mut fs, _i, _o) = test_fs();
    assert!(fs.read_guest_file("/input/../etc/passwd").is_err());
    assert!(fs.read_guest_file("/input/../../root/.ssh/id_rsa").is_err());
}
#[test]
fn symlink_follow_policy_is_explicit_and_capability_scoped() {
    let (mut fs, input, _o) = test_fs();
    let outside = tempfile::tempdir().unwrap();
    host_write(outside.path().join("secret.txt"), b"secret").unwrap();
    host_create_dir(&input, "src");
    host_write_input(&input, "src/lib.rs", b"inside");
    symlink("src/lib.rs", input.path().join("internal-link")).unwrap();
    symlink(
        outside.path().join("secret.txt"),
        input.path().join("external-link"),
    )
    .unwrap();

    let input_fd = preopen_fd(&fs, "/input");

    let internal = fs
        .open_at_with_path_flags(
            input_fd,
            "internal-link",
            PathFlags::SYMLINK_FOLLOW,
            OpenFlags::OPEN_EXISTING,
        )
        .unwrap();
    assert_eq!(fs.read_file(internal, 0, 100).unwrap().0, b"inside");
    assert_eq!(
        fs.stat_at_with_path_flags(input_fd, "internal-link", PathFlags::empty())
            .unwrap()
            .descriptor_type,
        DescriptorType::SymbolicLink
    );
    assert_eq!(
        fs.open_at_with_path_flags(
            input_fd,
            "internal-link",
            PathFlags::empty(),
            OpenFlags::OPEN_EXISTING,
        ),
        Err(FsError::SymlinkLoop)
    );

    assert!(
        fs.open_at_with_path_flags(
            input_fd,
            "external-link",
            PathFlags::SYMLINK_FOLLOW,
            OpenFlags::OPEN_EXISTING,
        )
        .is_err()
    );
    assert_eq!(
        fs.stat_at_with_path_flags(input_fd, "external-link", PathFlags::empty())
            .unwrap()
            .descriptor_type,
        DescriptorType::SymbolicLink
    );
}
#[test]
fn symlink_loops_fail_without_hanging() {
    let (mut fs, input, _o) = test_fs();
    symlink("second", input.path().join("first")).unwrap();
    symlink("first", input.path().join("second")).unwrap();
    let input_fd = preopen_fd(&fs, "/input");

    assert!(
        fs.open_at_with_path_flags(
            input_fd,
            "first",
            PathFlags::SYMLINK_FOLLOW,
            OpenFlags::OPEN_EXISTING,
        )
        .is_err()
    );
    assert!(
        fs.stat_at_with_path_flags(input_fd, "first", PathFlags::SYMLINK_FOLLOW)
            .is_err()
    );
}

#[test]
fn open_at_on_nonexistent_preopen() {
    let (mut fs, _i, _o) = test_fs();
    // Try to use a made-up fd that isn't a preopen
    assert_eq!(
        fs.open_at(99, "file.txt", OpenFlags::CREATE),
        Err(FsError::BadDescriptor)
    );
    assert_eq!(
        fs.open_at(0, "file.txt", OpenFlags::CREATE),
        Err(FsError::BadDescriptor)
    );
    assert_eq!(
        fs.open_at(1, "file.txt", OpenFlags::CREATE),
        Err(FsError::BadDescriptor)
    );
    assert_eq!(
        fs.open_at(2, "file.txt", OpenFlags::CREATE),
        Err(FsError::BadDescriptor)
    );
}

#[test]
fn write_output_path_outside_output() {
    let (mut fs, _i, _o) = test_fs();
    // Must be rooted at /output
    assert!(
        fs.write_output_path("/input/sneaky.txt", b"data".to_vec())
            .is_err()
    );
    assert!(
        fs.write_output_path("/etc/passwd", b"data".to_vec())
            .is_err()
    );
    assert!(
        fs.write_output_path("/output/../etc/passwd", b"data".to_vec())
            .is_err()
    );
}

// ── Filesystem mutation tests ───────────────────────────────────

#[test]
fn create_directory_at_supports_nested_validated_paths() {
    let (mut fs, _input, output) = test_fs();
    let output_fd = preopen_fd(&fs, "/output");

    fs.create_directory_at(output_fd, "build").unwrap();
    fs.create_directory_at(output_fd, "./build//cache/")
        .unwrap();

    assert!(output.path().join("build/cache").is_dir());
    assert_eq!(
        fs.stat_at(output_fd, "build/cache")
            .unwrap()
            .descriptor_type,
        DescriptorType::Directory
    );
    assert_eq!(
        fs.create_directory_at(output_fd, "build/cache"),
        Err(FsError::Exist)
    );
    assert_eq!(
        fs.create_directory_at(output_fd, "missing/child"),
        Err(FsError::NoEntry)
    );
    assert_eq!(
        fs.create_directory_at(output_fd, "../escape"),
        Err(FsError::InvalidPath)
    );
}

#[test]
fn mutations_require_directory_mutation_rights() {
    let (mut fs, input, output) = test_fs();
    host_create_dir(&input, "dir");
    host_write_input(&input, "file.txt", b"input");
    host_write_output(&output, "output.txt", b"output");
    let input_fd = preopen_fd(&fs, "/input");
    let output_fd = preopen_fd(&fs, "/output");

    assert_eq!(
        fs.create_directory_at(input_fd, "created"),
        Err(FsError::NotPermitted)
    );
    assert_eq!(
        fs.unlink_file_at(input_fd, "file.txt"),
        Err(FsError::NotPermitted)
    );
    assert_eq!(
        fs.remove_directory_at(input_fd, "dir"),
        Err(FsError::NotPermitted)
    );
    assert_eq!(
        fs.rename_at(input_fd, "file.txt", output_fd, "moved.txt"),
        Err(FsError::NotPermitted)
    );
    assert_eq!(
        fs.rename_at(output_fd, "output.txt", input_fd, "moved.txt"),
        Err(FsError::NotPermitted)
    );
    assert!(input.path().join("file.txt").is_file());
    assert!(output.path().join("output.txt").is_file());
}

#[test]
fn unlink_file_at_invalidates_open_descriptors_and_streams() {
    let (mut fs, _input, output) = test_fs();
    let output_fd = preopen_fd(&fs, "/output");
    host_write_output(&output, "delete.txt", b"contents");
    let first = fs
        .open_at(output_fd, "delete.txt", OpenFlags::OPEN_EXISTING)
        .unwrap();
    let second = fs
        .open_at(output_fd, "delete.txt", OpenFlags::OPEN_EXISTING)
        .unwrap();
    let stream = fs.create_read_stream(first, 0).unwrap();

    fs.unlink_file_at(output_fd, "delete.txt").unwrap();

    assert!(!output.path().join("delete.txt").exists());
    assert_eq!(fs.get_type(first), Err(FsError::BadDescriptor));
    assert_eq!(fs.get_type(second), Err(FsError::BadDescriptor));
    assert_eq!(fs.stream_read(stream, 1), Err(FsError::BadDescriptor));
    assert_eq!(
        fs.unlink_file_at(output_fd, "delete.txt"),
        Err(FsError::NoEntry)
    );
}

#[test]
fn unlink_file_at_rejects_directories_and_trailing_slashes() {
    let (mut fs, _input, output) = test_fs();
    let output_fd = preopen_fd(&fs, "/output");
    host_create_dir(&output, "dir");
    host_write_output(&output, "file.txt", b"contents");

    assert_eq!(
        fs.unlink_file_at(output_fd, "dir"),
        Err(FsError::IsDirectory)
    );
    assert_eq!(
        fs.unlink_file_at(output_fd, "dir/"),
        Err(FsError::IsDirectory)
    );
    assert_eq!(
        fs.unlink_file_at(output_fd, "file.txt/"),
        Err(FsError::NotDirectory)
    );
    assert!(output.path().join("file.txt").is_file());
}
#[test]
fn unlink_file_at_removes_a_symlink_without_touching_its_target() {
    let (mut fs, _input, output) = test_fs();
    let output_fd = preopen_fd(&fs, "/output");
    host_write_output(&output, "target.txt", b"target");
    symlink("target.txt", output.path().join("link.txt")).unwrap();

    fs.unlink_file_at(output_fd, "link.txt").unwrap();

    assert!(!output.path().join("link.txt").exists());
    assert_eq!(
        host_read(output.path().join("target.txt")).unwrap(),
        b"target"
    );
}
#[test]
fn mutation_trailing_slash_does_not_follow_a_final_symlink() {
    let (mut fs, _input, output) = test_fs();
    let output_fd = preopen_fd(&fs, "/output");
    host_create_dir(&output, "target");
    host_create_dir(&output, "source");
    symlink("target", output.path().join("link")).unwrap();

    assert_eq!(
        fs.unlink_file_at(output_fd, "link/"),
        Err(FsError::NotDirectory)
    );
    assert_eq!(
        fs.rename_at(output_fd, "source", output_fd, "link/"),
        Err(FsError::NotDirectory)
    );
    assert!(
        host_symlink_metadata(output.path().join("link"))
            .unwrap()
            .file_type()
            .is_symlink()
    );
    assert!(output.path().join("source").is_dir());
    assert!(output.path().join("target").is_dir());
}
#[test]
fn mutations_cannot_traverse_an_external_directory_symlink() {
    let (mut fs, _input, output) = test_fs();
    let outside = tempfile::tempdir().unwrap();
    host_write(outside.path().join("sentinel.txt"), b"outside").unwrap();
    symlink(outside.path(), output.path().join("outside-link")).unwrap();
    let output_fd = preopen_fd(&fs, "/output");

    assert!(
        fs.create_directory_at(output_fd, "outside-link/created")
            .is_err()
    );
    assert!(
        fs.unlink_file_at(output_fd, "outside-link/sentinel.txt")
            .is_err()
    );
    assert!(
        fs.rename_at(
            output_fd,
            "outside-link/sentinel.txt",
            output_fd,
            "moved.txt",
        )
        .is_err()
    );
    assert_eq!(
        host_read(outside.path().join("sentinel.txt")).unwrap(),
        b"outside"
    );
    assert!(!outside.path().join("created").exists());
    assert!(!output.path().join("moved.txt").exists());
}
#[test]
fn rename_at_moves_a_symlink_and_invalidates_followed_descriptors() {
    let (mut fs, _input, output) = test_fs();
    let output_fd = preopen_fd(&fs, "/output");
    host_write_output(&output, "target.txt", b"target");
    symlink("target.txt", output.path().join("old-link")).unwrap();
    let followed_fd = fs
        .open_at(output_fd, "old-link", OpenFlags::OPEN_EXISTING)
        .unwrap();

    fs.rename_at(output_fd, "old-link", output_fd, "new-link")
        .unwrap();

    assert_eq!(fs.get_type(followed_fd), Err(FsError::BadDescriptor));
    assert!(
        host_symlink_metadata(output.path().join("new-link"))
            .unwrap()
            .file_type()
            .is_symlink()
    );
    assert_eq!(
        host_read(output.path().join("new-link")).unwrap(),
        b"target"
    );
}

#[test]
fn remove_directory_at_requires_an_empty_directory_and_invalidates_handles() {
    let (mut fs, _input, output) = test_fs();
    let output_fd = preopen_fd(&fs, "/output");
    host_create_dir(&output, "empty");
    host_create_dir(&output, "nonempty");
    host_write_output(&output, "nonempty/file.txt", b"contents");
    host_write_output(&output, "file.txt", b"contents");
    let empty_fd = fs
        .open_at(output_fd, "empty", OpenFlags::DIRECTORY)
        .unwrap();
    let dir_stream = fs.create_dir_stream(empty_fd).unwrap();

    assert_eq!(
        fs.remove_directory_at(output_fd, "nonempty"),
        Err(FsError::NotEmpty)
    );
    assert_eq!(
        fs.remove_directory_at(output_fd, "file.txt"),
        Err(FsError::NotDirectory)
    );
    fs.remove_directory_at(output_fd, "empty").unwrap();

    assert!(!output.path().join("empty").exists());
    assert_eq!(fs.get_type(empty_fd), Err(FsError::BadDescriptor));
    assert!(!fs.has_dir_stream(dir_stream));
}

#[test]
fn rename_at_invalidates_open_source_descriptors_and_streams() {
    let (mut fs, _input, output) = test_fs();
    let output_fd = preopen_fd(&fs, "/output");
    host_write_output(&output, "old.txt", b"contents");
    let file_fd = fs
        .open_at(output_fd, "old.txt", OpenFlags::OPEN_EXISTING)
        .unwrap();
    let stream = fs.create_read_stream(file_fd, 0).unwrap();

    fs.rename_at(output_fd, "old.txt", output_fd, "new.txt")
        .unwrap();

    assert!(!output.path().join("old.txt").exists());
    assert_eq!(
        host_read(output.path().join("new.txt")).unwrap(),
        b"contents"
    );
    assert_eq!(fs.get_type(file_fd), Err(FsError::BadDescriptor));
    assert_eq!(fs.stream_read(stream, 4), Err(FsError::BadDescriptor));
    let reopened = fs
        .open_at(output_fd, "new.txt", OpenFlags::OPEN_EXISTING)
        .unwrap();
    assert_eq!(fs.read_file(reopened, 0, 100).unwrap().0, b"contents");
}

#[test]
fn rename_at_same_path_is_a_noop_and_preserves_descriptors() {
    let (mut fs, _input, output) = test_fs();
    let output_fd = preopen_fd(&fs, "/output");
    host_write_output(&output, "same.txt", b"contents");
    let file_fd = fs
        .open_at(output_fd, "same.txt", OpenFlags::OPEN_EXISTING)
        .unwrap();
    let stream = fs.create_read_stream(file_fd, 0).unwrap();

    fs.rename_at(output_fd, "same.txt", output_fd, "./same.txt")
        .unwrap();

    assert_eq!(fs.get_type(file_fd), Ok(DescriptorType::RegularFile));
    assert_eq!(fs.stream_read(stream, 4).unwrap(), b"cont");
}

#[test]
fn rename_at_invalidates_an_open_directory_subtree() {
    let (mut fs, _input, output) = test_fs();
    let output_fd = preopen_fd(&fs, "/output");
    host_create_dir(&output, "build/cache");
    host_write_output(&output, "build/cache/result.txt", b"result");
    let build_fd = fs
        .open_at(output_fd, "build", OpenFlags::DIRECTORY)
        .unwrap();
    let file_fd = fs
        .open_at(build_fd, "cache/result.txt", OpenFlags::OPEN_EXISTING)
        .unwrap();

    fs.rename_at(output_fd, "build", output_fd, "archive")
        .unwrap();

    assert_eq!(fs.get_type(build_fd), Err(FsError::BadDescriptor));
    assert_eq!(fs.get_type(file_fd), Err(FsError::BadDescriptor));
    assert_eq!(
        fs.stat_at(output_fd, "archive/cache/result.txt")
            .unwrap()
            .descriptor_type,
        DescriptorType::RegularFile
    );
}

#[test]
fn rename_at_works_between_open_directories_in_the_same_root() {
    let (mut fs, _input, output) = test_fs();
    let output_fd = preopen_fd(&fs, "/output");
    host_create_dir(&output, "from");
    host_create_dir(&output, "to");
    host_write_output(&output, "from/file.txt", b"contents");
    let from_fd = fs.open_at(output_fd, "from", OpenFlags::DIRECTORY).unwrap();
    let to_fd = fs.open_at(output_fd, "to", OpenFlags::DIRECTORY).unwrap();
    let file_fd = fs
        .open_at(from_fd, "file.txt", OpenFlags::OPEN_EXISTING)
        .unwrap();

    fs.rename_at(from_fd, "file.txt", to_fd, "moved.txt")
        .unwrap();

    assert_eq!(fs.get_type(file_fd), Err(FsError::BadDescriptor));
    assert_eq!(fs.file_dir_fd(file_fd), None);
    assert!(output.path().join("to/moved.txt").is_file());
}

#[test]
fn rename_at_invalidates_descriptors_for_a_replaced_destination() {
    let (mut fs, _input, output) = test_fs();
    let output_fd = preopen_fd(&fs, "/output");
    host_write_output(&output, "source.txt", b"source");
    host_write_output(&output, "destination.txt", b"destination");
    let source_fd = fs
        .open_at(output_fd, "source.txt", OpenFlags::OPEN_EXISTING)
        .unwrap();
    let destination_fd = fs
        .open_at(output_fd, "destination.txt", OpenFlags::OPEN_EXISTING)
        .unwrap();
    let destination_stream = fs.create_read_stream(destination_fd, 0).unwrap();

    fs.rename_at(output_fd, "source.txt", output_fd, "destination.txt")
        .unwrap();

    assert_eq!(fs.get_type(source_fd), Err(FsError::BadDescriptor));
    assert_eq!(fs.get_type(destination_fd), Err(FsError::BadDescriptor));
    assert_eq!(
        fs.stream_read(destination_stream, 1),
        Err(FsError::BadDescriptor)
    );
}

#[test]
fn rename_at_rejects_cross_capability_root_moves() {
    let (mut fs, _input, output) = test_fs();
    let other = tempfile::tempdir().unwrap();
    host_write_output(&output, "file.txt", b"contents");
    let other_cap = CapDir::open_ambient_dir(other.path(), ambient_authority()).unwrap();
    let other_fd = fs
        .register_preopen(
            Dir::new(
                other_cap,
                DirPerms::READ | DirPerms::MUTATE,
                FilePerms::READ | FilePerms::WRITE,
            ),
            "/other",
            MountLifetime::Persistent,
        )
        .unwrap();
    let output_fd = preopen_fd(&fs, "/output");

    assert_eq!(
        fs.rename_at(output_fd, "file.txt", other_fd, "file.txt"),
        Err(FsError::CrossDevice)
    );
    assert!(output.path().join("file.txt").is_file());
    assert!(!other.path().join("file.txt").exists());
}

#[test]
fn filesystem_mutations_reject_unsafe_paths_and_bad_descriptors() {
    let (mut fs, _input, _output) = test_fs();
    let output_fd = preopen_fd(&fs, "/output");

    assert_eq!(
        fs.unlink_file_at(output_fd, "../escape"),
        Err(FsError::InvalidPath)
    );
    assert_eq!(
        fs.remove_directory_at(output_fd, "/absolute"),
        Err(FsError::InvalidPath)
    );
    assert_eq!(
        fs.rename_at(output_fd, "old", output_fd, "../../new"),
        Err(FsError::InvalidPath)
    );
    assert_eq!(
        fs.create_directory_at(999, "dir"),
        Err(FsError::BadDescriptor)
    );
    assert_eq!(
        fs.remove_directory_at(output_fd, "."),
        Err(FsError::InvalidPath)
    );
    assert_eq!(
        fs.rename_at(output_fd, ".", output_fd, "renamed-root"),
        Err(FsError::InvalidPath)
    );
}

#[test]
fn io_errors_are_classified_for_wasi() {
    let cases = [
        (ErrorKind::NotFound, FsError::NoEntry),
        (ErrorKind::PermissionDenied, FsError::Access),
        (ErrorKind::AlreadyExists, FsError::Exist),
        (ErrorKind::NotADirectory, FsError::NotDirectory),
        (ErrorKind::IsADirectory, FsError::IsDirectory),
        (ErrorKind::DirectoryNotEmpty, FsError::NotEmpty),
        (ErrorKind::ReadOnlyFilesystem, FsError::ReadOnly),
        (ErrorKind::StorageFull, FsError::InsufficientSpace),
        (ErrorKind::QuotaExceeded, FsError::Quota),
        (ErrorKind::CrossesDevices, FsError::CrossDevice),
    ];

    for (kind, expected) in cases {
        assert_eq!(FsError::from_io(host_error(std::io::Error::from(kind))), expected);
    }
}

// ── Directory stream tests ──────────────────────────────────────

#[test]
fn dir_stream_lists_files() {
    let (mut fs, _i, _o) = test_fs();
    let output_fd = preopen_fd(&fs, "/output");
    fs.open_at(output_fd, "a.txt", OpenFlags::CREATE).unwrap();
    fs.open_at(output_fd, "b.txt", OpenFlags::CREATE).unwrap();

    let stream = fs.create_dir_stream(output_fd).unwrap();
    let mut names = Vec::new();
    while let Some(Some((name, _is_dir))) = fs.read_dir_entry(stream) {
        names.push(name);
    }
    names.sort();
    assert_eq!(names, vec!["a.txt", "b.txt"]);
    // End of stream
    assert_eq!(fs.read_dir_entry(stream), Some(None));
}

#[test]
fn dir_stream_empty_dir() {
    let (mut fs, _i, _o) = test_fs();
    let output_fd = preopen_fd(&fs, "/output");
    let stream = fs.create_dir_stream(output_fd).unwrap();
    assert_eq!(fs.read_dir_entry(stream), Some(None));
}

#[test]
fn dir_stream_includes_names_with_http_prefix() {
    let (mut fs, _i, output) = test_fs();
    host_write_output(&output, "__http_cache.txt", b"data");

    let output_fd = preopen_fd(&fs, "/output");
    let stream = fs.create_dir_stream(output_fd).unwrap();
    let mut names = Vec::new();
    while let Some(Some((name, _is_dir))) = fs.read_dir_entry(stream) {
        names.push(name);
    }

    assert!(names.contains(&"__http_cache.txt".to_string()));
}

#[test]
fn dir_stream_errors_when_directory_exceeds_limit() {
    let (fs, _i, output) = test_fs();
    let output_fd = preopen_fd(&fs, "/output");
    let mut fs = fs.with_limits(FilesystemLimits {
        max_directory_entries_per_listing: 2,
        ..FilesystemLimits::default()
    });

    for i in 0..=2 {
        host_write_output(&output, &format!("file-{i}.txt"), b"");
    }

    assert_eq!(fs.create_dir_stream(output_fd), Err(FsError::Quota));
}

// ── Append stream test ──────────────────────────────────────────

#[test]
fn append_stream_appends() {
    let (mut fs, _i, _o) = test_fs();
    let output_fd = preopen_fd(&fs, "/output");
    let fd = fs.open_at(output_fd, "log.txt", OpenFlags::CREATE).unwrap();
    fs.write_file(fd, 0, b"first").unwrap();

    let as_ = fs.create_append_stream(fd).unwrap();
    fs.stream_write(as_, b" second").unwrap();

    let (data, _) = fs.read_file(fd, 0, 100).unwrap();
    assert_eq!(data, b"first second");
}

#[test]
fn filesystem_limit_defaults_match_the_phase_one_policy() {
    let limits = FilesystemLimits::default();
    assert_eq!(limits.max_open_descriptors, 1_024);
    assert_eq!(limits.max_open_streams, 1_024);
    assert_eq!(limits.max_single_read_bytes, 16 * 1024 * 1024);
    assert_eq!(limits.max_read_bytes_per_run, 256 * 1024 * 1024);
    assert_eq!(limits.max_written_bytes_per_run, 64 * 1024 * 1024);
    assert_eq!(limits.max_creations_per_run, 10_000);
    assert_eq!(limits.max_directory_entries_per_listing, 10_000);
    assert_eq!(limits.max_directory_entries_per_run, 100_000);
    assert_eq!(limits.max_cleanup_entries, 100_000);
    assert_eq!(limits.max_recursive_depth, 64);
}

#[test]
fn open_descriptor_limit_counts_preopens_and_releases_closed_handles() {
    let limits = FilesystemLimits {
        max_open_descriptors: 3,
        ..FilesystemLimits::default()
    };
    let (mut fs, input, _output) = test_fs_with_limits(limits);
    host_write_input(&input, "a.txt", b"a");
    host_write_input(&input, "b.txt", b"b");
    let input_fd = preopen_fd(&fs, "/input");

    let first = fs
        .open_at(input_fd, "a.txt", OpenFlags::OPEN_EXISTING)
        .unwrap();
    assert_eq!(
        fs.open_at(input_fd, "b.txt", OpenFlags::OPEN_EXISTING),
        Err(FsError::Quota)
    );

    fs.close_descriptor(first).unwrap();
    assert!(
        fs.open_at(input_fd, "b.txt", OpenFlags::OPEN_EXISTING)
            .is_ok()
    );
}

#[test]
fn stream_limit_combines_file_and_directory_streams() {
    let limits = FilesystemLimits {
        max_open_streams: 2,
        ..FilesystemLimits::default()
    };
    let (mut fs, input, _output) = test_fs_with_limits(limits);
    host_write_input(&input, "data.txt", b"data");
    let input_fd = preopen_fd(&fs, "/input");
    let file_fd = fs
        .open_at(input_fd, "data.txt", OpenFlags::OPEN_EXISTING)
        .unwrap();

    let first = fs.create_read_stream(file_fd, 0).unwrap();
    let directory = fs.create_dir_stream(input_fd).unwrap();
    assert_eq!(fs.create_read_stream(file_fd, 0), Err(FsError::Quota));

    fs.close_stream(first);
    assert!(fs.create_read_stream(file_fd, 0).is_ok());
    fs.close_dir_stream(directory);
}

#[test]
fn read_limits_enforce_single_and_total_bytes_and_reset_per_run() {
    let limits = FilesystemLimits {
        max_single_read_bytes: 3,
        max_read_bytes_per_run: 5,
        ..FilesystemLimits::default()
    };
    let (mut fs, input, _output) = test_fs_with_limits(limits);
    host_write_input(&input, "data.txt", b"abcdef");
    let input_fd = preopen_fd(&fs, "/input");
    let file_fd = fs
        .open_at(input_fd, "data.txt", OpenFlags::OPEN_EXISTING)
        .unwrap();

    assert_eq!(fs.read_file(file_fd, 0, 100).unwrap().0, b"abc");
    assert_eq!(fs.read_file(file_fd, 3, 2).unwrap().0, b"de");
    assert_eq!(fs.read_file(file_fd, 5, 1), Err(FsError::Quota));

    fs.prepare_for_run().unwrap();
    assert_eq!(fs.read_file(file_fd, 5, 1).unwrap().0, b"f");
    assert!(fs.read_guest_file("/input/data.txt").is_err());
}

#[test]
fn helper_and_descriptor_reads_share_one_per_run_budget() {
    let limits = FilesystemLimits {
        max_single_read_bytes: 8,
        max_read_bytes_per_run: 5,
        ..FilesystemLimits::default()
    };
    let (mut fs, input, _output) = test_fs_with_limits(limits);
    host_write_input(&input, "first.txt", b"abc");
    host_write_input(&input, "second.txt", b"def");
    let input_fd = preopen_fd(&fs, "/input");
    let first = fs
        .open_at(input_fd, "first.txt", OpenFlags::OPEN_EXISTING)
        .unwrap();

    assert_eq!(fs.read_file(first, 0, 3).unwrap().0, b"abc");
    assert!(fs.read_guest_file("/input/second.txt").is_err());
}

#[test]
fn helper_and_descriptor_writes_share_one_per_run_budget() {
    let limits = FilesystemLimits {
        max_written_bytes_per_run: 5,
        ..FilesystemLimits::default()
    };
    let (mut fs, _input, output) = test_fs_with_limits(limits);
    let output_fd = preopen_fd(&fs, "/output");
    let file_fd = fs
        .open_at(output_fd, "first.txt", OpenFlags::CREATE)
        .unwrap();

    fs.write_file(file_fd, 0, b"abc").unwrap();
    assert!(
        fs.write_output_path("/output/second.txt", b"def".to_vec())
            .is_err()
    );
    assert_eq!(
        host_read(output.path().join("first.txt")).unwrap(),
        b"abc"
    );
    assert!(!output.path().join("second.txt").exists());
}

#[test]
fn creation_budget_resets_only_after_successful_run_preparation() {
    let limits = FilesystemLimits {
        max_creations_per_run: 1,
        ..FilesystemLimits::default()
    };
    let (mut fs, _input, output) = test_fs_with_limits(limits);
    let output_fd = preopen_fd(&fs, "/output");

    fs.open_at(output_fd, "first.txt", OpenFlags::CREATE)
        .unwrap();
    assert_eq!(
        fs.create_directory_at(output_fd, "blocked"),
        Err(FsError::Quota)
    );

    fs.prepare_for_run().unwrap();
    fs.create_directory_at(output_fd, "allowed").unwrap();
    assert!(output.path().join("allowed").is_dir());
}

#[test]
fn directory_entry_budget_is_cumulative_within_a_run() {
    let limits = FilesystemLimits {
        max_directory_entries_per_listing: 10,
        max_directory_entries_per_run: 2,
        ..FilesystemLimits::default()
    };
    let (mut fs, input, _output) = test_fs_with_limits(limits);
    host_write_input(&input, "a.txt", b"a");
    host_write_input(&input, "b.txt", b"b");
    let input_fd = preopen_fd(&fs, "/input");

    let stream = fs.create_dir_stream(input_fd).unwrap();
    fs.close_dir_stream(stream);
    assert_eq!(fs.create_dir_stream(input_fd), Err(FsError::Quota));

    fs.prepare_for_run().unwrap();
    assert!(fs.create_dir_stream(input_fd).is_ok());
}

#[test]
fn alloc_handle_overflow_returns_error() {
    let mut handles = HandleAllocator {
        next_handle: u32::MAX,
    };

    assert_eq!(
        handles.alloc_handle(),
        Err(FsError::Io("file descriptor handle space exhausted".into()))
    );
}

#[test]
fn work_mount_can_be_read_only() {
    let work = tempfile::tempdir().unwrap();
    host_write(work.path().join("existing.txt"), b"hello").unwrap();

    let fs = HostFs::new()
        .with_work(work.path(), WorkDirAccess::ReadOnly)
        .unwrap();

    let work_fd = preopen_fd(&fs, "/work");

    assert_eq!(
        fs.decisions().mount_lifetime(work_fd),
        Some(MountLifetime::Persistent)
    );
}

#[test]
fn persistent_work_mount_is_not_cleared() {
    let work = tempfile::tempdir().unwrap();

    let mut fs = HostFs::new()
        .with_work(work.path(), WorkDirAccess::ReadWrite)
        .unwrap();

    host_write(work.path().join("persistent.txt"), b"survives").unwrap();

    fs.prepare_for_run().unwrap();

    assert_eq!(
        host_read(work.path().join("persistent.txt")).unwrap(),
        b"survives"
    );
}

// Three important properties:
// /work contents survive cleanup.
// /tmp contents are deleted.
// Descriptors under /tmp are invalidated, while /work descriptors remain valid.
#[test]
fn temp_mount_is_cleared_but_work_mount_persists() {
    let work = tempfile::tempdir().unwrap();

    let mut fs = HostFs::new()
        .with_work(work.path(), WorkDirAccess::ReadWrite)
        .unwrap()
        .with_temp_dir()
        .unwrap();

    let work_fd = preopen_fd(&fs, "/work");
    let temp_fd = preopen_fd(&fs, "/tmp");

    let work_file = fs.open_at(work_fd, "persistent.txt", OpenFlags::CREATE).unwrap();
    fs.write_file(work_file, 0, b"survives").unwrap();

    let temp_file = fs.open_at(temp_fd, "temporary.txt", OpenFlags::CREATE).unwrap();
    fs.write_file(temp_file, 0, b"survives").unwrap();

    fs.prepare_for_run().unwrap();

    assert!(work.path().join("persistent.txt").exists());

    let temp_path = fs.temp_path().unwrap();
    assert!(!temp_path.join("temporary.txt").exists());

    assert_eq!(
        fs.get_type(work_file),
        Ok(DescriptorType::RegularFile)
    );
    assert_eq!(
        fs.get_type(temp_file),
        Err(FsError::BadDescriptor)
    );
}

// Both ephemeral mounts are cleaned.
#[test]
fn all_ephemeral_mounts_are_cleared() {
    let work = tempfile::tempdir().unwrap();

    let mut fs = HostFs::new()
        .with_output_dir(work.path(),
        DirPerms::READ | DirPerms::MUTATE,
        FilePerms::READ | FilePerms::WRITE,
        )
        .unwrap()
        .with_temp_dir()
        .unwrap();
    let output_fd = preopen_fd(&fs, "/output");
    let temp_fd = preopen_fd(&fs, "/tmp");

    let output_file = fs.open_at(output_fd, "output.txt", OpenFlags::CREATE).unwrap();
    fs.write_file(output_file, 0, b"survives").unwrap();

    let temp_file = fs.open_at(temp_fd, "temporary.txt", OpenFlags::CREATE).unwrap();
    fs.write_file(temp_file, 0, b"survives").unwrap();

    fs.clear_ephemeral_mounts().unwrap();

    // output file does not exist
    assert!(!work.path().join("output.txt").exists());
    // temp file does not exist
    assert!(!fs.temp_path().unwrap().join("temporary.txt").exists());
}

struct TestGuest;

struct TestSandbox;

impl GuestSandbox for TestSandbox {
    type SnapshotData = ();
    type Error = anyhow::Error;

    fn run(&mut self, _code: &str) -> Result<ExecutionResult> {
        Ok(ExecutionResult {
            stdout: String::new(),
            stderr: String::new(),
            exit_code: 0,
        })
    }

    fn snapshot(&mut self) -> Result<Snapshot<Self::SnapshotData>> {
        Ok(Snapshot::new("test", std::sync::Arc::new(())))
    }

    fn restore(&mut self, _snapshot: &Snapshot<Self::SnapshotData>) -> Result<()> {
        Ok(())
    }
}

struct Sandbox {
    inner: TestSandbox,
    fs: HostFs,
}

impl Sandbox {
    fn snapshot(&mut self) -> Result<Snapshot<()>> {
        self.inner.snapshot()
    }

    fn restore(&mut self, snapshot: &Snapshot<()>) -> Result<()> {
        self.inner.restore(snapshot)?;
        self.fs
            .prepare_for_run()
            .map_err(|error| anyhow::Error::msg(error.debug_text()))
    }
}

fn build(builder: SandboxBuilder<TestGuest>) -> Result<Sandbox> {
    let plan = builder.build();
    let mut fs = HostFs::from_decisions(plan.filesystem);
    for request in plan.mounts {
        fs = fs.mount(request)?;
    }
    Ok(Sandbox {
        inner: TestSandbox,
        fs,
    })
}

#[test]
fn builder_registers_mounts_in_documented_order() {
    let input = tempfile::tempdir().unwrap();
    let output = tempfile::tempdir().unwrap();
    let work = tempfile::tempdir().unwrap();
    let sandbox = build(
        SandboxBuilder::new()
            .input_dir(input.path().to_path_buf())
            .output_dir(
                output.path().to_path_buf(),
                DirPerms::READ | DirPerms::MUTATE,
                FilePerms::READ | FilePerms::WRITE,
            )
            .work_dir(work.path().to_path_buf(), WorkDirAccess::ReadOnly)
            .temp_dir()
            .guest(TestGuest),
    )
    .unwrap();
    let fs = &sandbox.fs;

    assert_eq!(
        fs.preopens(),
        vec![(3, "/input"), (4, "/output"), (5, "/work"), (6, "/tmp")]
    );
    let work_flags = fs.get_flags(5).unwrap();
    assert!(work_flags.read);
    assert!(!work_flags.write);
    assert!(!work_flags.mutate_directory);
    let tmp_flags = fs.get_flags(6).unwrap();
    assert!(tmp_flags.read);
    assert!(tmp_flags.write);
    assert!(tmp_flags.mutate_directory);
}

#[test]
fn builder_rejects_a_missing_work_directory() {
    let parent = tempfile::tempdir().unwrap();
    let missing = parent.path().join("missing");
    let result = build(
        SandboxBuilder::new()
            .work_dir(missing, WorkDirAccess::ReadOnly)
            .guest(TestGuest),
    );

    let error = result.err().expect("missing work directory must fail");
    assert!(error.to_string().contains("failed to open work dir"));
}

#[test]
fn restore_clears_tmp_and_preserves_work() {
    let work = tempfile::tempdir().unwrap();
    let mut sandbox = build(
        SandboxBuilder::new()
            .work_dir(work.path().to_path_buf(), WorkDirAccess::ReadWrite)
            .temp_dir()
            .guest(TestGuest),
    )
    .unwrap();
    {
        let fs = &mut sandbox.fs;
        let work_fd = preopen_fd(fs, "/work");
        let tmp_fd = preopen_fd(fs, "/tmp");
        let work_file = fs
            .open_at(work_fd, "persist.txt", OpenFlags::CREATE)
            .unwrap();
        fs.write_file(work_file, 0, b"work").unwrap();
        let tmp_file = fs
            .open_at(tmp_fd, "discard.txt", OpenFlags::CREATE)
            .unwrap();
        fs.write_file(tmp_file, 0, b"tmp").unwrap();
    }
    let snapshot = sandbox.snapshot().unwrap();

    sandbox.restore(&snapshot).unwrap();

    let fs = &sandbox.fs;
    assert_eq!(
        host_read(work.path().join("persist.txt")).unwrap(),
        b"work"
    );
    assert_eq!(host_count(fs.temp_path().unwrap()), 0);
}

#[test]
fn runs_composition_quotes_and_status() {
    let mut shell = Toolbox::default();
    let mut fs = HostFs::new();
    let result = execute_cli(
        &mut shell,
        &mut fs,
        "false && echo no || echo 'yes yes'; echo $?",
    );
    assert_eq!(result.stdout, "yes yes\n0\n");
}

#[test]
fn mutations_use_capfs_permissions() {
    let dir = tempfile::tempdir().unwrap();
    let mut fs = HostFs::new()
        .with_work(dir.path(), WorkDirAccess::ReadWrite)
        .unwrap();
    let mut shell = Toolbox::default();
    assert_eq!(
        execute_cli(
            &mut shell,
            &mut fs,
            "mkdir nested; touch nested/a; cat nested/a"
        )
        .exit_code,
        0
    );
    assert!(dir.path().join("nested/a").exists());
}

#[test]
fn cd_into_created_subdirectory() {
    let dir = tempfile::tempdir().unwrap();
    let mut fs = HostFs::new()
        .with_work(dir.path(), WorkDirAccess::ReadWrite)
        .unwrap();
    let mut shell = Toolbox::default();
    let result = execute_cli(&mut shell, &mut fs, "mkdir project && cd project && pwd");
    assert_eq!(result.exit_code, 0);
    assert_eq!(result.stdout, "/work/project\n");
    assert_eq!(
        execute_cli(&mut shell, &mut fs, "cd missing").exit_code,
        1
    );
}

#[test]
fn exit_status_tracks_within_composed_script() {
    let dir = tempfile::tempdir().unwrap();
    let mut shell = Toolbox::default();
    let mut fs = HostFs::new()
        .with_work(dir.path(), WorkDirAccess::ReadWrite)
        .unwrap();
    let result = execute_cli(&mut shell, &mut fs, "cat missing.txt; echo $?");
    assert_eq!(result.stdout, "1\n");
}

#[test]
fn mounts_of_different_lifetimes_must_not_share_a_directory() {
    let base = tempfile::tempdir().unwrap();
    let inner = base.path().join("inner");
    host_create_dir_all(&inner).unwrap();
    let writable = DirPerms::READ | DirPerms::MUTATE;
    let files = FilePerms::READ | FilePerms::WRITE;
    for (work, output) in [
        (base.path(), base.path()),
        (base.path(), inner.as_path()),
        (inner.as_path(), base.path()),
    ] {
        let error = HostFs::new()
            .with_work(work, WorkDirAccess::ReadWrite)
            .unwrap()
            .with_output_dir(output, writable, files)
            .err()
            .unwrap();
        assert_eq!(
            error.to_string(),
            "host directories with different lifetimes must not overlap"
        );
    }
    // A link to a directory is that directory.
    symlink("inner", base.path().join("alias")).unwrap();
    assert!(HostFs::new()
        .with_input(base.path().join("alias"))
        .unwrap()
        .with_output_dir(&inner, writable, files)
        .is_err());
    let sibling = base.path().join("sibling");
    host_create_dir_all(&sibling).unwrap();
    assert!(HostFs::new()
        .with_input(&inner)
        .unwrap()
        .with_output_dir(&sibling, writable, files)
        .is_ok());
}

#[test]
fn cleanup_limits_are_exact() {
    // Seven names on three levels below the root.
    let plant = |output: &TempDir| {
        host_create_dir(output, "a/b/c");
        host_write_output(output, "one", b"1");
        host_write_output(output, "a/two", b"2");
        host_write_output(output, "a/b/three", b"3");
        host_write_output(output, "a/b/c/four", b"4");
    };
    for (entries, depth, expected) in [
        (7, 3, Ok(())),
        (6, 3, Err(FsError::Quota)),
        (7, 2, Err(FsError::Quota)),
    ] {
        let (mut fs, _input, output) = test_fs_with_limits(FilesystemLimits {
            max_cleanup_entries: entries,
            max_recursive_depth: depth,
            ..FilesystemLimits::default()
        });
        plant(&output);
        assert_eq!(fs.clear(), expected);
        assert_eq!(host_count(output.path()) == 0, expected.is_ok());
    }
}

#[test]
fn clear_mount_clears_one_mount() {
    let (mut fs, _input, output) = test_fs();
    host_write_output(&output, "gone", b"x");
    let output_fd = preopen_fd(&fs, "/output");
    assert_eq!(fs.clear_mount(output_fd), Ok(()));
    assert_eq!(host_count(output.path()), 0);
    assert_eq!(fs.clear_mount(999), Err(FsError::BadDescriptor));
}

#[test]
fn scripts_reach_only_what_is_mounted() {
    let work = tempfile::tempdir().unwrap();
    host_write(work.path().join("f"), b"text\n").unwrap();
    let mut fs = HostFs::new()
        .with_work(work.path(), WorkDirAccess::ReadOnly)
        .unwrap();
    let mut shell = Toolbox::default();
    let mut outcome = |script: &str| {
        let result = execute_cli(&mut shell, &mut fs, script);
        (result.exit_code, result.stdout, result.stderr)
    };
    assert_eq!(
        outcome("cat f /work/f"),
        (0, "text\ntext\n".to_string(), String::new())
    );
    for script in ["touch new", "mkdir d", "rm f"] {
        assert_eq!(
            outcome(script),
            (
                1,
                String::new(),
                "toolbox: filesystem error: NotPermitted\n".to_string()
            )
        );
    }
    assert_eq!(
        outcome("cat missing").2,
        "toolbox: cat: file not found: /work/missing\n"
    );
    assert_eq!(
        outcome("cat /etc/passwd").2,
        "toolbox: cat: no preopen for /etc\n"
    );
    assert_eq!(outcome("cd f").2, "toolbox: cd: not a directory\n");
    assert_eq!(outcome("cd /work && pwd").1, "/work\n");
    assert!(work.path().join("f").is_file());
}

#[test]
fn scripts_change_what_they_may() {
    let work = tempfile::tempdir().unwrap();
    let mut fs = HostFs::new()
        .with_work(work.path(), WorkDirAccess::ReadWrite)
        .unwrap();
    let mut shell = Toolbox::default();
    let result = execute_cli(&mut shell, &mut fs, "touch a && rm a && rm a");
    assert_eq!(result.exit_code, 1);
    assert_eq!(result.stderr, "toolbox: filesystem error: NoEntry\n");
    assert_eq!(host_count(work.path()), 0);
    let result = execute_cli(&mut shell, &mut fs, "mkdir d; mkdir d");
    assert_eq!(result.stderr, "toolbox: filesystem error: Exist\n");
    let result = execute_cli(&mut shell, &mut fs, "cd d; touch x; cd /work; rm d");
    assert_eq!(result.stderr, "toolbox: filesystem error: IsDirectory\n");
    assert!(work.path().join("d/x").is_file());
}

#[test]
fn closing_and_finding_files() {
    let (mut fs, _input, output) = test_fs();
    host_create_dir(&output, "dir");
    let output_fd = preopen_fd(&fs, "/output");
    let dir = fs.open_at(output_fd, "dir", OpenFlags::DIRECTORY).unwrap();
    let file = fs.open_at(dir, "f", OpenFlags::CREATE).unwrap();
    assert_eq!(fs.find_file_in_dir(dir, "f"), Some(file));
    assert_eq!(fs.file_size(file), Some(0));
    fs.write_file(file, 3, b"abc").unwrap();
    assert_eq!(fs.file_size(file), Some(6));
    assert_eq!(
        fs.read_file(file, 0, 100).unwrap(),
        (b"\0\0\0abc".to_vec(), true)
    );
    assert_eq!(fs.read_file(file, 0, 2).unwrap(), (vec![0, 0], false));
    assert_eq!(
        fs.write_file(file, u64::MAX, b"x"),
        Err(FsError::Overflow)
    );
    let truncated = fs.open_at(dir, "f", OpenFlags::TRUNCATE).unwrap();
    assert_eq!(fs.file_size(truncated), Some(0));
    fs.close_file(dir);
    assert!(!fs.is_directory(dir) && fs.is_file(file));
    assert_eq!(fs.stat(dir), Err(FsError::BadDescriptor));
}

#[test]
fn output_is_read_back() {
    let (mut fs, _input, output) = test_fs();
    host_create_dir(&output, "nested");
    fs.write_output_path("/output/other.txt", b"other".to_vec())
        .unwrap();
    for data in [&b"a long first text"[..], b"short", b""] {
        fs.write_output_path("/output/./nested/f.txt", data.to_vec())
            .unwrap();
        assert_eq!(fs.read_guest_file("/output/nested/f.txt").unwrap(), data);
        assert_eq!(fs.read_guest_file("/output/./nested/f.txt").unwrap(), data);
    }
    assert_eq!(fs.read_guest_file("/output/other.txt").unwrap(), b"other");
    assert!(fs
        .write_output_path("/input/f.txt", b"x".to_vec())
        .is_err());
}

#[test]
fn writes_are_read_back() {
    let (mut fs, _input, _output) = test_fs();
    let output_fd = preopen_fd(&fs, "/output");
    let file = fs.open_at(output_fd, "f", OpenFlags::CREATE).unwrap();
    fs.write_file(file, 0, b"0123456789").unwrap();
    fs.write_file(file, 3, b"abc").unwrap();
    assert_eq!(fs.read_file(file, 3, 3).unwrap(), (b"abc".to_vec(), false));
    fs.write_file(file, 12, b"end").unwrap();
    assert_eq!(
        fs.read_file(file, 0, 100).unwrap(),
        (b"012abc6789\0\0end".to_vec(), true)
    );

    let writer = fs.create_write_stream(file, 5).unwrap();
    let reader = fs.create_read_stream(file, 5).unwrap();
    assert_eq!(fs.stream_write(writer, b"stream"), Ok(6));
    assert_eq!(fs.stream_read(reader, 6), Ok(b"stream".to_vec()));
}

#[test]
fn empty_arguments_name_nothing() {
    let work = tempfile::tempdir().unwrap();
    let mut fs = HostFs::new()
        .with_work(work.path(), WorkDirAccess::ReadWrite)
        .unwrap();
    let mut shell = Toolbox::default();
    for script in ["touch ''", "mkdir ''", "rm ''", "cat ''"] {
        let result = execute_cli(&mut shell, &mut fs, script);
        assert_eq!((result.exit_code, result.stdout.as_str()), (1, ""), "{script}");
        assert_ne!(result.stderr, "", "{script}");
    }
    assert_eq!(host_count(work.path()), 0);
}
