//! Configuration, snapshots and the builder of a sandbox.
use std::path::PathBuf;
use std::sync::Arc;
use vstd::prelude::*;

use crate::cap_fs::mounts::{granted_to, host_mount};
use crate::cap_fs::{CapFs, HostDir};
use crate::error::MountError;
use crate::limits::FilesystemLimits;
use crate::model::FsView;
use crate::perms::{Dir, DirPerms, FilePerms, MountLifetime, WorkDirAccess};
use crate::text::texts;

verus! {

/// Default guest heap size in bytes.
pub const DEFAULT_HEAP_SIZE: u64 = 26_214_400;

/// Default guest stack / scratch size in bytes.
pub const DEFAULT_STACK_SIZE: u64 = 36_700_160;

/// Default guest heap size in bytes on Windows.
pub const WINDOWS_HEAP_SIZE: u64 = 419_430_400;

/// Default guest stack / scratch size in bytes on Windows.
pub const WINDOWS_STACK_SIZE: u64 = 209_715_200;

/// Configuration for building a sandbox guest.
#[derive(Debug, Clone)]
pub struct SandboxConfig {
    /// Path to the AOT-compiled Wasm component (e.g. `python-sandbox.aot`).
    pub module_file: String,
    /// Guest heap size in bytes.
    pub heap_size: u64,
    /// Guest scratch / stack size in bytes.
    pub stack_size: u64,
}

impl SandboxConfig {
    /// The configuration that applies where nothing else is chosen. Heap and
    /// stack are larger on Windows.
    pub fn for_platform(windows: bool) -> (r: SandboxConfig)
        ensures
            r.module_file@ == Seq::<char>::empty(),
            r.heap_size == if windows {
                WINDOWS_HEAP_SIZE
            } else {
                DEFAULT_HEAP_SIZE
            },
            r.stack_size == if windows {
                WINDOWS_STACK_SIZE
            } else {
                DEFAULT_STACK_SIZE
            },
    {
        if windows {
            SandboxConfig {
                module_file: String::new(),
                heap_size: WINDOWS_HEAP_SIZE,
                stack_size: WINDOWS_STACK_SIZE,
            }
        } else {
            SandboxConfig {
                module_file: String::new(),
                heap_size: DEFAULT_HEAP_SIZE,
                stack_size: DEFAULT_STACK_SIZE,
            }
        }
    }
}

impl Default for SandboxConfig {
    fn default() -> (r: SandboxConfig)
        ensures
            r.module_file@ == Seq::<char>::empty(),
            r.heap_size == DEFAULT_HEAP_SIZE,
            r.stack_size == DEFAULT_STACK_SIZE,
    {
        SandboxConfig::for_platform(false)
    }
}

/// The result of executing code inside the sandbox.
#[derive(Debug, Clone)]
pub struct ExecutionResult {
    pub stdout: String,
    pub stderr: String,
    pub exit_code: i32,
}

/// Captured guest runtime state, and the kind of backend that captured it.
pub struct Snapshot<T> {
    kind: &'static str,
    snapshot: Arc<T>,
}

impl<T> Snapshot<T> {
    /// The kind of backend.
    pub closed spec fn kind_text(self) -> Seq<char> {
        self.kind@
    }

    /// The captured state.
    pub closed spec fn state(self) -> T {
        *self.snapshot
    }

    pub fn kind(&self) -> (r: &'static str)
        ensures
            r@ == self.kind_text(),
    {
        self.kind
    }

    pub fn new(kind: &'static str, snapshot: Arc<T>) -> (r: Snapshot<T>)
        ensures
            r.kind_text() == kind@,
            r.state() == *snapshot,
    {
        Snapshot { kind, snapshot }
    }

    pub fn snapshot(&self) -> (r: &Arc<T>)
        ensures
            **r == self.state(),
    {
        &self.snapshot
    }
}

impl<T> Clone for Snapshot<T> {
    fn clone(&self) -> (r: Snapshot<T>)
        ensures
            r.kind_text() == self.kind_text(),
            r.state() == self.state(),
    {
        Snapshot { kind: self.kind, snapshot: self.snapshot.clone() }
    }
}

/// A running guest.
pub trait GuestSandbox: Send {
    type SnapshotData: Send + Sync + 'static;

    type Error;

    /// Execute guest code.
    ///
    /// Ephemeral files under `/output` and `/tmp` are wiped before each
    /// execution. Persistent `/input` and `/work` mounts are preserved.
    fn run(&mut self, code: &str) -> Result<ExecutionResult, Self::Error>;

    /// Capture a snapshot of the guest runtime state.
    fn snapshot(&mut self) -> Result<Snapshot<Self::SnapshotData>, Self::Error>;

    /// Restore a previously captured guest runtime state.
    fn restore(&mut self, snapshot: &Snapshot<Self::SnapshotData>) -> Result<(), Self::Error>;
}

/// A directory that a sandbox asks for.
pub enum MountRequest {
    /// A host directory as the read-only `/input`.
    Input(PathBuf),
    /// A host directory as `/output`, with explicit permissions.
    Output(PathBuf, DirPerms, FilePerms),
    /// A fresh temporary directory as `/output`.
    TempOutput,
    /// A host directory as the persistent `/work`.
    Work(PathBuf, WorkDirAccess),
    /// A fresh temporary directory as `/tmp`.
    Temp,
}

/// What a request asks for: the permissions on the directory and on its files,
/// the path under which the guest sees it, and its lifetime.
pub open spec fn requested(request: MountRequest) -> (
    DirPerms,
    FilePerms,
    Seq<char>,
    MountLifetime,
) {
    match request {
        MountRequest::Input(_) => (
            DirPerms::READ,
            FilePerms::READ,
            "/input"@,
            MountLifetime::Persistent,
        ),
        MountRequest::Output(_, perms, file_perms) => (
            perms,
            file_perms,
            "/output"@,
            MountLifetime::ClearBeforeRun,
        ),
        MountRequest::TempOutput => (
            DirPerms::READ_MUTATE,
            FilePerms::READ_WRITE,
            "/output"@,
            MountLifetime::ClearBeforeRun,
        ),
        MountRequest::Work(_, access) => (
            DirPerms::granting(true, access is ReadWrite),
            FilePerms::granting(true, access is ReadWrite),
            "/work"@,
            MountLifetime::Persistent,
        ),
        MountRequest::Temp => (
            DirPerms::READ_MUTATE,
            FilePerms::READ_WRITE,
            "/tmp"@,
            MountLifetime::ClearBeforeRun,
        ),
    }
}

/// The state after a request was met with the given host directory, or why it
/// cannot be.
pub open spec fn request_mounted(fs: FsView, request: MountRequest, host: HostDir) -> Result<
    FsView,
    MountError<Seq<char>>,
> {
    let (perms, file_perms, guest_path, lifetime) = requested(request);
    match fs.mounting(host_mount(host, perms, file_perms, guest_path, lifetime)) {
        Err(e) => Err(e),
        Ok(after) => Ok(
            match request {
                MountRequest::Output(_, _, _) | MountRequest::TempOutput => FsView {
                    output_fd: Some(fs.next_handle),
                    output_path: Some(host.path),
                    ..after
                },
                MountRequest::Temp => FsView { temp_path: Some(host.path), ..after },
                _ => after,
            },
        ),
    }
}

impl MountRequest {
    /// Mounts the host directory that this request was met with.
    pub fn mount(self, fs: CapFs, host: HostDir) -> (r: Result<CapFs, MountError>)
        requires
            fs.wf(),
        ensures
            match request_mounted(fs@, self, host) {
                Ok(after) => r matches Ok(fs) && fs.wf() && fs@ == after,
                Err(error) => r matches Err(e) && e@ == error,
            },
            r matches Ok(after) ==> granted_to(
                after@,
                fs@.next_handle,
                host,
                requested(self).0,
                requested(self).1,
            ),
    {
        match self {
            MountRequest::Input(_) => fs.with_input(host),
            MountRequest::Output(_, perms, file_perms) => fs.with_output_dir(
                host,
                perms,
                file_perms,
            ),
            MountRequest::TempOutput => fs.with_temp_output(host),
            MountRequest::Work(_, access) => fs.with_work(host, access),
            MountRequest::Temp => fs.with_temp_dir(host),
        }
    }
}

/// Typestate marker indicating no guest backend has been selected yet. What is
/// planned from a builder in this state names no backend to run the guest on.
pub struct NoGuest;

/// Builder for constructing a sandbox. `T` is the registry of tools that the
/// guest may call.
pub struct SandboxBuilder<G = NoGuest, T = ()> {
    guest: G,
    config: SandboxConfig,
    tools: Option<T>,
    input_dir: Option<PathBuf>,
    output_dir: Option<(PathBuf, DirPerms, FilePerms)>,
    temp_output: bool,
    work_dir: Option<(PathBuf, WorkDirAccess)>,
    temp_dir: bool,
    filesystem_limits: FilesystemLimits,
}

/// What was chosen for a sandbox, in the form that contracts use.
#[verifier::ext_equal]
pub struct BuilderView<G, T> {
    pub guest: G,
    pub module_file: Seq<char>,
    pub heap_size: u64,
    pub stack_size: u64,
    pub tools: Option<T>,
    pub input_dir: Option<PathBuf>,
    pub output_dir: Option<(PathBuf, DirPerms, FilePerms)>,
    pub temp_output: bool,
    pub work_dir: Option<(PathBuf, WorkDirAccess)>,
    pub temp_dir: bool,
    pub limits: FilesystemLimits,
}

impl<G, T> BuilderView<G, T> {
    /// The input directory, where one was chosen.
    pub open spec fn input_mounts(self) -> Seq<MountRequest> {
        match self.input_dir {
            Some(path) => seq![MountRequest::Input(path)],
            None => Seq::empty(),
        }
    }

    /// The output directory. A temporary one is ignored where one was chosen.
    pub open spec fn output_mounts(self) -> Seq<MountRequest> {
        match self.output_dir {
            Some((path, perms, file_perms)) => seq![MountRequest::Output(path, perms, file_perms)],
            None => if self.temp_output {
                seq![MountRequest::TempOutput]
            } else {
                Seq::empty()
            },
        }
    }

    /// The work directory, where one was chosen.
    pub open spec fn work_mounts(self) -> Seq<MountRequest> {
        match self.work_dir {
            Some((path, access)) => seq![MountRequest::Work(path, access)],
            None => Seq::empty(),
        }
    }

    /// The temp directory, where it was asked for.
    pub open spec fn temp_mounts(self) -> Seq<MountRequest> {
        if self.temp_dir {
            seq![MountRequest::Temp]
        } else {
            Seq::empty()
        }
    }

    /// The directories to mount, in this order: `/input`, `/output`, `/work`,
    /// `/tmp`.
    pub open spec fn mounts(self) -> Seq<MountRequest> {
        self.input_mounts() + self.output_mounts() + self.work_mounts() + self.temp_mounts()
    }
}

/// Everything that a sandbox is built from.
pub struct BuildPlan<G, T> {
    pub guest: G,
    pub config: SandboxConfig,
    /// The registry of tools, where one was chosen.
    pub tools: Option<T>,
    /// A filesystem with the chosen limits, and nothing mounted yet.
    pub filesystem: CapFs,
    /// The directories to mount, in order.
    pub mounts: Vec<MountRequest>,
}

impl<G, T> View for SandboxBuilder<G, T> {
    type V = BuilderView<G, T>;

    closed spec fn view(&self) -> BuilderView<G, T> {
        BuilderView {
            guest: self.guest,
            module_file: self.config.module_file@,
            heap_size: self.config.heap_size,
            stack_size: self.config.stack_size,
            tools: self.tools,
            input_dir: self.input_dir,
            output_dir: self.output_dir,
            temp_output: self.temp_output,
            work_dir: self.work_dir,
            temp_dir: self.temp_dir,
            limits: self.filesystem_limits,
        }
    }
}

impl<T> BuilderView<NoGuest, T> {
    /// Nothing chosen yet.
    pub open spec fn unchosen(windows: bool) -> BuilderView<NoGuest, T> {
        BuilderView {
            guest: NoGuest,
            module_file: Seq::empty(),
            heap_size: if windows {
                WINDOWS_HEAP_SIZE
            } else {
                DEFAULT_HEAP_SIZE
            },
            stack_size: if windows {
                WINDOWS_STACK_SIZE
            } else {
                DEFAULT_STACK_SIZE
            },
            tools: None,
            input_dir: None,
            output_dir: None,
            temp_output: false,
            work_dir: None,
            temp_dir: false,
            limits: FilesystemLimits::standard(),
        }
    }
}

impl<T> SandboxBuilder<NoGuest, T> {
    /// A builder on which nothing was chosen yet, with the sizes that apply
    /// everywhere but on Windows.
    pub fn new() -> (r: SandboxBuilder<NoGuest, T>)
        ensures
            r@ == BuilderView::<NoGuest, T>::unchosen(false),
    {
        SandboxBuilder::for_platform(false)
    }

    /// A builder on which nothing was chosen yet, with the sizes that apply on
    /// Windows, or those that apply elsewhere.
    pub fn for_platform(windows: bool) -> (r: SandboxBuilder<NoGuest, T>)
        ensures
            r@ == BuilderView::<NoGuest, T>::unchosen(windows),
    {
        let r = SandboxBuilder {
            guest: NoGuest,
            config: SandboxConfig::for_platform(windows),
            tools: None,
            input_dir: None,
            output_dir: None,
            temp_output: false,
            work_dir: None,
            temp_dir: false,
            filesystem_limits: FilesystemLimits::default(),
        };
        assert(r@ =~= BuilderView::<NoGuest, T>::unchosen(windows));
        r
    }

    /// Selects the guest backend.
    pub fn guest<G>(self, guest: G) -> (r: SandboxBuilder<G, T>)
        ensures
            r@ == (BuilderView {
                guest,
                module_file: self@.module_file,
                heap_size: self@.heap_size,
                stack_size: self@.stack_size,
                tools: self@.tools,
                input_dir: self@.input_dir,
                output_dir: self@.output_dir,
                temp_output: self@.temp_output,
                work_dir: self@.work_dir,
                temp_dir: self@.temp_dir,
                limits: self@.limits,
            }),
    {
        SandboxBuilder {
            guest,
            config: self.config,
            tools: self.tools,
            input_dir: self.input_dir,
            output_dir: self.output_dir,
            temp_output: self.temp_output,
            work_dir: self.work_dir,
            temp_dir: self.temp_dir,
            filesystem_limits: self.filesystem_limits,
        }
    }
}

impl<T> Default for SandboxBuilder<NoGuest, T> {
    fn default() -> (r: SandboxBuilder<NoGuest, T>)
        ensures
            r@ == BuilderView::<NoGuest, T>::unchosen(false),
    {
        SandboxBuilder::new()
    }
}

impl<G, T> SandboxBuilder<G, T> {
    pub fn module_file(self, module_file: String) -> (r: SandboxBuilder<G, T>)
        ensures
            r@ == (BuilderView { module_file: module_file@, ..self@ }),
    {
        let mut builder = self;
        builder.config.module_file = module_file;
        builder
    }

    pub fn heap_size(self, heap_size: u64) -> (r: SandboxBuilder<G, T>)
        ensures
            r@ == (BuilderView { heap_size, ..self@ }),
    {
        let mut builder = self;
        builder.config.heap_size = heap_size;
        builder
    }

    pub fn stack_size(self, stack_size: u64) -> (r: SandboxBuilder<G, T>)
        ensures
            r@ == (BuilderView { stack_size, ..self@ }),
    {
        let mut builder = self;
        builder.config.stack_size = stack_size;
        builder
    }

    pub fn with_tools(self, tools: T) -> (r: SandboxBuilder<G, T>)
        ensures
            r@ == (BuilderView { tools: Some(tools), ..self@ }),
    {
        let mut builder = self;
        builder.tools = Some(tools);
        builder
    }

    /// Set the host directory exposed as the read-only `/input` preopen.
    pub fn input_dir(self, path: PathBuf) -> (r: SandboxBuilder<G, T>)
        ensures
            r@ == (BuilderView { input_dir: Some(path), ..self@ }),
    {
        let mut builder = self;
        builder.input_dir = Some(path);
        builder
    }

    /// Set the host directory exposed as the writable `/output` preopen,
    /// with explicit permissions.
    pub fn output_dir(self, path: PathBuf, dir_perms: DirPerms, file_perms: FilePerms) -> (r:
        SandboxBuilder<G, T>)
        ensures
            r@ == (BuilderView { output_dir: Some((path, dir_perms, file_perms)), ..self@ }),
    {
        let mut builder = self;
        builder.output_dir = Some((path, dir_perms, file_perms));
        builder
    }

    /// Enable a temporary writable `/output` directory. Ignored when an
    /// explicit `output_dir` is set.
    pub fn temp_output(self) -> (r: SandboxBuilder<G, T>)
        ensures
            r@ == (BuilderView { temp_output: true, ..self@ }),
    {
        let mut builder = self;
        builder.temp_output = true;
        builder
    }

    /// Set the host directory exposed as the persistent `/work` preopen.
    ///
    /// Callers must choose the access mode explicitly. Prefer
    /// [`WorkDirAccess::ReadOnly`] unless guest writes are required.
    pub fn work_dir(self, path: PathBuf, access: WorkDirAccess) -> (r: SandboxBuilder<G, T>)
        ensures
            r@ == (BuilderView { work_dir: Some((path, access)), ..self@ }),
    {
        let mut builder = self;
        builder.work_dir = Some((path, access));
        builder
    }

    /// Enable a private writable `/tmp` preopen.
    ///
    /// Its backing directory is owned by the sandbox and recursively cleared
    /// before every run and after snapshot restore.
    pub fn temp_dir(self) -> (r: SandboxBuilder<G, T>)
        ensures
            r@ == (BuilderView { temp_dir: true, ..self@ }),
    {
        let mut builder = self;
        builder.temp_dir = true;
        builder
    }

    /// Configure filesystem resource limits and per-run quotas.
    pub fn filesystem_limits(self, limits: FilesystemLimits) -> (r: SandboxBuilder<G, T>)
        ensures
            r@ == (BuilderView { limits, ..self@ }),
    {
        let mut builder = self;
        builder.filesystem_limits = limits;
        builder
    }

    /// What the sandbox is built from: an empty filesystem with the chosen
    /// limits, and the directories to mount in it, in order.
    pub fn build(self) -> (r: BuildPlan<G, T>)
        ensures
            r.guest == self@.guest,
            r.config.module_file@ == self@.module_file,
            r.config.heap_size == self@.heap_size,
            r.config.stack_size == self@.stack_size,
            r.tools == self@.tools,
            r.filesystem.wf(),
            r.filesystem@ == (FsView { limits: self@.limits, ..FsView::empty() }),
            r.mounts@ == self@.mounts(),
    {
        let filesystem = CapFs::new().with_limits(self.filesystem_limits);
        let mut mounts: Vec<MountRequest> = Vec::new();
        if let Some(path) = self.input_dir {
            mounts.push(MountRequest::Input(path));
        }
        assert(mounts@ =~= self@.input_mounts());
        match self.output_dir {
            Some((path, dir_perms, file_perms)) => {
                mounts.push(MountRequest::Output(path, dir_perms, file_perms));
            },
            None => {
                if self.temp_output {
                    mounts.push(MountRequest::TempOutput);
                }
            },
        }
        assert(mounts@ =~= self@.input_mounts() + self@.output_mounts());
        if let Some((path, access)) = self.work_dir {
            mounts.push(MountRequest::Work(path, access));
        }
        assert(mounts@ =~= self@.input_mounts() + self@.output_mounts() + self@.work_mounts());
        if self.temp_dir {
            mounts.push(MountRequest::Temp);
        }
        assert(mounts@ =~= self@.mounts());
        BuildPlan { guest: self.guest, config: self.config, tools: self.tools, filesystem, mounts }
    }
}

/// Every mounted directory takes the next descriptor: the mounts of a fresh
/// sandbox are numbered from the first preopen on, in the order in which they
/// were asked for.
pub proof fn law_mounts_are_numbered_in_order(fs: FsView, request: MountRequest, host: HostDir)
    ensures
        FsView::empty().next_handle == crate::handles::FIRST_PREOPEN_FD,
        request_mounted(fs, request, host) matches Ok(after) ==> {
            &&& after.preopens.contains_key(fs.next_handle)
            &&& after.preopens[fs.next_handle].guest_path == match request {
                MountRequest::Input(_) => "/input"@,
                MountRequest::Output(_, _, _) => "/output"@,
                MountRequest::TempOutput => "/output"@,
                MountRequest::Work(_, _) => "/work"@,
                MountRequest::Temp => "/tmp"@,
            }
            &&& after.next_handle == fs.next_handle + 1
            &&& forall|fd: u32|
                fd != fs.next_handle ==> (after.preopens.contains_key(fd)
                    <==> fs.preopens.contains_key(fd))
        },
{
}

/// The output directory of a sandbox is all that is mounted at `/output`: it is
/// so while nothing is mounted, mounting it for the first time makes it so, and
/// no other request changes it. A plan asks for it once at most.
pub proof fn law_output_is_mounted_once<G, T>(
    fs: FsView,
    request: MountRequest,
    host: HostDir,
    builder: BuilderView<G, T>,
)
    requires
        fs.wf(),
        fs.output_mounted_once(),
        request is Output || request is TempOutput ==> fs.output_fd is None,
    ensures
        FsView::empty().output_mounted_once(),
        request_mounted(fs, request, host) matches Ok(after) ==> after.output_mounted_once(),
        forall|i: int, j: int|
            #![trigger builder.mounts()[i], builder.mounts()[j]]
            0 <= i < j < builder.mounts().len() && (builder.mounts()[i] is Output
                || builder.mounts()[i] is TempOutput) ==> !(builder.mounts()[j] is Output
                || builder.mounts()[j] is TempOutput),
{
    reveal_strlit("/input");
    reveal_strlit("/output");
    reveal_strlit("/work");
    reveal_strlit("/tmp");
    assert("/input"@[1] != "/output"@[1]);
    assert("/work"@[1] != "/output"@[1]);
    assert("/tmp"@[1] != "/output"@[1]);
    if fs.preopens.contains_key(fs.next_handle) {
        assert(fs.descriptors.contains_key(fs.next_handle));
        assert(fs.descriptor_ok(fs.next_handle));
    }
    if let Ok(after) = request_mounted(fs, request, host) {
        assert forall|fd: u32| #[trigger]
            after.preopens.contains_key(fd) && after.preopens[fd].guest_path
                == "/output"@ implies after.output_fd == Some(fd) by {
            if fd != fs.next_handle {
                assert(fs.preopens.contains_key(fd));
                assert(fs.output_fd == Some(fd));
            }
        }
    }
}

/// `/input` and `/work` keep their contents between runs, `/output` and `/tmp`
/// do not.
pub proof fn law_mounts_have_their_lifetimes(fs: FsView, request: MountRequest, host: HostDir)
    ensures
        request_mounted(fs, request, host) matches Ok(after) ==> {
            &&& after.ephemeral().contains(fs.next_handle) <==> !(request is Input
                || request is Work)
            &&& after.preopens[fs.next_handle].lifetime is Persistent <==> request is Input
                || request is Work
        },
{
}

/// What is mounted grants what was asked for: `/input` reading alone, a chosen
/// `/output` just the rights that were chosen, a temporary one and `/tmp`
/// everything, and `/work` reading, and changing only where that was chosen.
/// Where output and temporary files go is noted exactly for those mounts.
pub proof fn law_mounts_grant_what_was_asked_for(
    fs: FsView,
    request: MountRequest,
    host: HostDir,
)
    ensures
        request_mounted(fs, request, host) matches Ok(after) ==> {
            let fd = fs.next_handle;
            let dir = after.preopens[fd].dir;
            let is_output = request is Output || request is TempOutput;
            &&& dir.host() == host.dir
            &&& match request {
                MountRequest::Input(_) => dir.grants() == DirPerms::READ && dir.file_grants()
                    == FilePerms::READ,
                MountRequest::Output(_, perms, file_perms) => dir.grants() == perms
                    && dir.file_grants() == file_perms,
                MountRequest::TempOutput => dir.grants() == DirPerms::READ_MUTATE
                    && dir.file_grants() == FilePerms::READ_WRITE,
                MountRequest::Work(_, access) => {
                    &&& dir.grants().reads()
                    &&& dir.file_grants().reads()
                    &&& dir.grants().mutates() <==> access == WorkDirAccess::ReadWrite
                    &&& dir.file_grants().writes() <==> access == WorkDirAccess::ReadWrite
                },
                MountRequest::Temp => dir.grants() == DirPerms::READ_MUTATE && dir.file_grants()
                    == FilePerms::READ_WRITE,
            }
            &&& after.preopens[fd].host_root == Some(texts(host.root@))
            &&& is_output ==> after.output_fd == Some(fd) && after.output_path == Some(host.path)
            &&& !is_output ==> after.output_fd == fs.output_fd && after.output_path
                == fs.output_path
            &&& request is Temp ==> after.temp_path == Some(host.path)
            &&& !(request is Temp) ==> after.temp_path == fs.temp_path
        },
{
    let (perms, file_perms, _, _) = requested(request);
    Dir::lemma_wrapping(host.dir, perms, file_perms);
}

/// The place of a mount among those that a sandbox asks for.
pub open spec fn rank(request: MountRequest) -> int {
    match request {
        MountRequest::Input(_) => 0,
        MountRequest::Output(_, _, _) => 1,
        MountRequest::TempOutput => 1,
        MountRequest::Work(_, _) => 2,
        MountRequest::Temp => 3,
    }
}

/// A sandbox asks for just the directories that were chosen, in the order
/// `/input`, `/output`, `/work`, `/tmp`. A temporary `/output` is asked for
/// exactly where it was chosen and no other one was.
pub proof fn law_what_was_chosen_is_mounted<G, T>(
    builder: BuilderView<G, T>,
    request: MountRequest,
    i: int,
    j: int,
)
    ensures
        0 <= i < j < builder.mounts().len() ==> rank(builder.mounts()[i]) < rank(
            builder.mounts()[j],
        ),
        builder.mounts().contains(request) <==> match request {
            MountRequest::Input(path) => builder.input_dir == Some(path),
            MountRequest::Output(path, perms, file_perms) => builder.output_dir == Some(
                (path, perms, file_perms),
            ),
            MountRequest::TempOutput => builder.temp_output && builder.output_dir is None,
            MountRequest::Work(path, access) => builder.work_dir == Some((path, access)),
            MountRequest::Temp => builder.temp_dir,
        },
{
    let input = builder.input_mounts();
    let output = builder.output_mounts();
    let work = builder.work_mounts();
    let temp = builder.temp_mounts();
    let all = builder.mounts();
    assert(all == input + output + work + temp);
    let a = input.len() as int;
    let b = a + output.len();
    let c = b + work.len();
    if a == 1 {
        assert(all[0] == input[0]);
    }
    if b > a {
        assert(all[a] == output[0]);
    }
    if c > b {
        assert(all[b] == work[0]);
    }
    if temp.len() == 1 {
        assert(all[c] == temp[0]);
    }
    if all.contains(request) {
        let k = choose|k: int| 0 <= k < all.len() && all[k] == request;
        assert(all[k] == if k < a {
            input[k]
        } else if k < b {
            output[k - a]
        } else if k < c {
            work[k - b]
        } else {
            temp[k - c]
        });
    }
}

/// Where nothing was chosen nothing is mounted, and the sizes are those of the
/// platform.
pub proof fn law_nothing_is_chosen_at_the_start<T>()
    ensures
        BuilderView::<NoGuest, T>::unchosen(true).heap_size == 400 * 1024 * 1024,
        BuilderView::<NoGuest, T>::unchosen(true).stack_size == 200 * 1024 * 1024,
        BuilderView::<NoGuest, T>::unchosen(false).heap_size == 25 * 1024 * 1024,
        BuilderView::<NoGuest, T>::unchosen(false).stack_size == 35 * 1024 * 1024,
        forall|windows: bool|
            {
                let b = #[trigger] BuilderView::<NoGuest, T>::unchosen(windows);
                &&& b.module_file.len() == 0
                &&& b.tools is None
                &&& b.input_dir is None
                &&& b.output_dir is None
                &&& !b.temp_output
                &&& b.work_dir is None
                &&& !b.temp_dir
                &&& b.limits == FilesystemLimits::standard()
            },
{
}

/// Every choice reaches the plan that is built, and changes nothing but what was
/// chosen.
pub proof fn law_choices_reach_the_plan<G, T>(
    builder: SandboxBuilder<G, T>,
    module_file: String,
    size: u64,
    tools: T,
    path: PathBuf,
    dir_perms: DirPerms,
    file_perms: FilePerms,
    access: WorkDirAccess,
    limits: FilesystemLimits,
    chosen: Seq<SandboxBuilder<G, T>>,
    plan: BuildPlan<G, T>,
)
    requires
        chosen.len() == 10,
        call_ensures(SandboxBuilder::<G, T>::module_file, (builder, module_file), chosen[0]),
        call_ensures(SandboxBuilder::<G, T>::heap_size, (builder, size), chosen[1]),
        call_ensures(SandboxBuilder::<G, T>::stack_size, (builder, size), chosen[2]),
        call_ensures(SandboxBuilder::<G, T>::with_tools, (builder, tools), chosen[3]),
        call_ensures(SandboxBuilder::<G, T>::input_dir, (builder, path), chosen[4]),
        call_ensures(
            SandboxBuilder::<G, T>::output_dir,
            (builder, path, dir_perms, file_perms),
            chosen[5],
        ),
        call_ensures(SandboxBuilder::<G, T>::temp_output, (builder,), chosen[6]),
        call_ensures(SandboxBuilder::<G, T>::work_dir, (builder, path, access), chosen[7]),
        call_ensures(SandboxBuilder::<G, T>::temp_dir, (builder,), chosen[8]),
        call_ensures(SandboxBuilder::<G, T>::filesystem_limits, (builder, limits), chosen[9]),
        call_ensures(SandboxBuilder::<G, T>::build, (builder,), plan),
    ensures
        chosen[0]@ == (BuilderView { module_file: module_file@, ..builder@ }),
        chosen[1]@ == (BuilderView { heap_size: size, ..builder@ }),
        chosen[2]@ == (BuilderView { stack_size: size, ..builder@ }),
        chosen[3]@ == (BuilderView { tools: Some(tools), ..builder@ }),
        chosen[4]@ == (BuilderView { input_dir: Some(path), ..builder@ }),
        chosen[5]@ == (BuilderView {
            output_dir: Some((path, dir_perms, file_perms)),
            ..builder@
        }),
        chosen[6]@ == (BuilderView { temp_output: true, ..builder@ }),
        chosen[7]@ == (BuilderView { work_dir: Some((path, access)), ..builder@ }),
        chosen[8]@ == (BuilderView { temp_dir: true, ..builder@ }),
        chosen[9]@ == (BuilderView { limits, ..builder@ }),
        plan.guest == builder@.guest,
        plan.config.module_file@ == builder@.module_file,
        plan.config.heap_size == builder@.heap_size,
        plan.config.stack_size == builder@.stack_size,
        plan.tools == builder@.tools,
        plan.filesystem@.limits == builder@.limits,
        plan.filesystem@.preopens.dom() =~= Set::<u32>::empty(),
        plan.mounts@.contains(MountRequest::Input(path)) <==> builder@.input_dir == Some(path),
        plan.mounts@.contains(MountRequest::Output(path, dir_perms, file_perms))
            <==> builder@.output_dir == Some((path, dir_perms, file_perms)),
        plan.mounts@.contains(MountRequest::TempOutput) <==> builder@.temp_output
            && builder@.output_dir is None,
        plan.mounts@.contains(MountRequest::Work(path, access)) <==> builder@.work_dir == Some(
            (path, access),
        ),
        plan.mounts@.contains(MountRequest::Temp) <==> builder@.temp_dir,
{
    law_what_was_chosen_is_mounted(builder@, MountRequest::Input(path), 0, 0);
    law_what_was_chosen_is_mounted(
        builder@,
        MountRequest::Output(path, dir_perms, file_perms),
        0,
        0,
    );
    law_what_was_chosen_is_mounted(builder@, MountRequest::TempOutput, 0, 0);
    law_what_was_chosen_is_mounted(builder@, MountRequest::Work(path, access), 0, 0);
    law_what_was_chosen_is_mounted(builder@, MountRequest::Temp, 0, 0);
}

/// A snapshot holds the state that was captured and says what captured it.
pub proof fn law_snapshots_hold_what_was_captured<T>(
    kind: &'static str,
    captured: Arc<T>,
    snapshot: Snapshot<T>,
    told: &'static str,
    held: &Arc<T>,
)
    requires
        call_ensures(Snapshot::<T>::new, (kind, captured), snapshot),
        call_ensures(Snapshot::<T>::kind, (&snapshot,), told),
        call_ensures(Snapshot::<T>::snapshot, (&snapshot,), held),
    ensures
        told@ == kind@,
        **held == *captured,
{
}

/// A builder starts with the sizes of the platform, and takes its guest over
/// without losing what was chosen before.
pub proof fn law_builders_start_and_take_a_guest<G, T>(
    windows: bool,
    config: SandboxConfig,
    start: SandboxBuilder<NoGuest, T>,
    plain: SandboxBuilder<NoGuest, T>,
    builder: SandboxBuilder<NoGuest, T>,
    guest: G,
    taken: SandboxBuilder<G, T>,
)
    requires
        call_ensures(SandboxConfig::for_platform, (windows,), config),
        call_ensures(SandboxBuilder::<NoGuest, T>::for_platform, (windows,), start),
        call_ensures(SandboxBuilder::<NoGuest, T>::new, (), plain),
        call_ensures(SandboxBuilder::<NoGuest, T>::guest::<G>, (builder, guest), taken),
    ensures
        ({
            let mebibyte: int = 1_048_576;
            let heap: int = if windows {
                400
            } else {
                25
            };
            let stack: int = if windows {
                200
            } else {
                35
            };
            &&& config.heap_size == heap * mebibyte
            &&& config.stack_size == stack * mebibyte
            &&& config.module_file@.len() == 0
            &&& start@.heap_size == heap * mebibyte
            &&& start@.stack_size == stack * mebibyte
            &&& plain@.heap_size == 25 * mebibyte
            &&& plain@.stack_size == 35 * mebibyte
        }),
        start@.mounts().len() == 0,
        plain@.mounts().len() == 0,
        start@.tools is None,
        start@.limits == FilesystemLimits::standard(),
        taken@.guest == guest,
        taken@.module_file == builder@.module_file,
        taken@.heap_size == builder@.heap_size,
        taken@.stack_size == builder@.stack_size,
        taken@.tools == builder@.tools,
        taken@.input_dir == builder@.input_dir,
        taken@.output_dir == builder@.output_dir,
        taken@.temp_output == builder@.temp_output,
        taken@.work_dir == builder@.work_dir,
        taken@.temp_dir == builder@.temp_dir,
        taken@.limits == builder@.limits,
{
}

/// A mount that was asked for is made at its guest path, with its lifetime, under
/// the next number, and on the host directory that was opened for it.
pub proof fn law_requests_are_mounted(
    request: MountRequest,
    fs: CapFs,
    host: HostDir,
    r: Result<CapFs, MountError>,
)
    requires
        call_ensures(MountRequest::mount, (request, fs, host), r),
    ensures
        r matches Ok(mounted) ==> {
            let fd = fs@.next_handle;
            let mount = mounted@.preopens[fd];
            &&& mounted@.preopens.contains_key(fd)
            &&& mount.dir.host() == host.dir
            &&& mount.guest_path == match request {
                MountRequest::Input(_) => "/input"@,
                MountRequest::Output(_, _, _) => "/output"@,
                MountRequest::TempOutput => "/output"@,
                MountRequest::Work(_, _) => "/work"@,
                MountRequest::Temp => "/tmp"@,
            }
            &&& mount.lifetime is Persistent <==> request is Input || request is Work
            &&& request matches MountRequest::Output(_, perms, file_perms) ==> {
                &&& mount.dir.grants() == perms
                &&& mount.dir.file_grants() == file_perms
            }
            &&& request is Input ==> !mount.dir.grants().mutates()
                && !mount.dir.file_grants().writes()
            &&& request matches MountRequest::Work(_, access) ==> {
                &&& mount.dir.grants().mutates() <==> access is ReadWrite
                &&& mount.dir.file_grants().writes() <==> access is ReadWrite
            }
            &&& request is Output || request is TempOutput ==> mounted@.output_fd == Some(fd)
            &&& !(request is Output || request is TempOutput) ==> mounted@.output_fd
                == fs@.output_fd
        },
{
    law_mounts_grant_what_was_asked_for(fs@, request, host);
}

} // verus!
