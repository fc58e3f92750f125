//! Filesystem errors, and how failures of the operating system are classified.
use vstd::prelude::*;

use crate::text::{begins_with, concat2, concat3, decimal, decimal_text, split_once, split_once_text};
use crate::text::{law_cutting_once, lemma_span_until, strip_prefix_text};

verus! {

/// Errors returned by [`CapFs`](crate::cap_fs::CapFs) operations.
///
/// The parameter is the form in which the text of an otherwise unclassified
/// failure is held: a `String` in running code, a sequence of characters in
/// contracts.
#[derive(Debug, Clone, PartialEq, Eq)]
pub enum FsError<S = String> {
    Access,
    BadDescriptor,
    Busy,
    CrossDevice,
    Deadlock,
    Exist,
    FileTooLarge,
    InsufficientMemory,
    InsufficientSpace,
    Interrupted,
    NotPermitted,
    NoEntry,
    NotDirectory,
    IsDirectory,
    NotEmpty,
    NameTooLong,
    Overflow,
    Quota,
    ReadOnly,
    InvalidSeek,
    TextFileBusy,
    TooManyLinks,
    Unsupported,
    WouldBlock,
    InvalidPath,
    SymlinkLoop,
    Io(S),
}

impl View for FsError<String> {
    type V = FsError<Seq<char>>;

    open spec fn view(&self) -> FsError<Seq<char>> {
        match *self {
            FsError::Access => FsError::Access,
            FsError::BadDescriptor => FsError::BadDescriptor,
            FsError::Busy => FsError::Busy,
            FsError::CrossDevice => FsError::CrossDevice,
            FsError::Deadlock => FsError::Deadlock,
            FsError::Exist => FsError::Exist,
            FsError::FileTooLarge => FsError::FileTooLarge,
            FsError::InsufficientMemory => FsError::InsufficientMemory,
            FsError::InsufficientSpace => FsError::InsufficientSpace,
            FsError::Interrupted => FsError::Interrupted,
            FsError::NotPermitted => FsError::NotPermitted,
            FsError::NoEntry => FsError::NoEntry,
            FsError::NotDirectory => FsError::NotDirectory,
            FsError::IsDirectory => FsError::IsDirectory,
            FsError::NotEmpty => FsError::NotEmpty,
            FsError::NameTooLong => FsError::NameTooLong,
            FsError::Overflow => FsError::Overflow,
            FsError::Quota => FsError::Quota,
            FsError::ReadOnly => FsError::ReadOnly,
            FsError::InvalidSeek => FsError::InvalidSeek,
            FsError::TextFileBusy => FsError::TextFileBusy,
            FsError::TooManyLinks => FsError::TooManyLinks,
            FsError::Unsupported => FsError::Unsupported,
            FsError::WouldBlock => FsError::WouldBlock,
            FsError::InvalidPath => FsError::InvalidPath,
            FsError::SymlinkLoop => FsError::SymlinkLoop,
            FsError::Io(message) => FsError::Io(message@),
        }
    }
}

/// An error in the form that contracts use.
pub type FsErrorView = FsError<Seq<char>>;

/// A result with its error in the form that contracts use.
pub open spec fn outcome<T>(r: Result<T, FsError>) -> Result<T, FsError<Seq<char>>> {
    match r {
        Ok(v) => Ok(v),
        Err(e) => Err(e@),
    }
}

/// The portable kinds of operating-system failure that are told apart.
#[derive(Debug, Clone, Copy, PartialEq, Eq, Structural)]
pub enum IoErrorKind {
    NotFound,
    PermissionDenied,
    AlreadyExists,
    WouldBlock,
    NotADirectory,
    IsADirectory,
    DirectoryNotEmpty,
    ReadOnlyFilesystem,
    InvalidInput,
    InvalidData,
    StorageFull,
    NotSeekable,
    QuotaExceeded,
    FileTooLarge,
    ResourceBusy,
    ExecutableFileBusy,
    Deadlock,
    CrossesDevices,
    TooManyLinks,
    InvalidFilename,
    ArgumentListTooLong,
    Interrupted,
    Unsupported,
    OutOfMemory,
    /// Every other kind.
    Other,
}

/// A failure reported by the host: its kind and its text.
#[derive(Debug, Clone, PartialEq, Eq)]
pub struct HostError {
    pub kind: IoErrorKind,
    pub message: String,
}

/// The error that stands for a host failure of the given kind and text.
pub open spec fn classified(kind: IoErrorKind, message: Seq<char>) -> FsError<Seq<char>> {
    match kind {
        IoErrorKind::NotFound => FsError::NoEntry,
        IoErrorKind::PermissionDenied => FsError::Access,
        IoErrorKind::AlreadyExists => FsError::Exist,
        IoErrorKind::WouldBlock => FsError::WouldBlock,
        IoErrorKind::NotADirectory => FsError::NotDirectory,
        IoErrorKind::IsADirectory => FsError::IsDirectory,
        IoErrorKind::DirectoryNotEmpty => FsError::NotEmpty,
        IoErrorKind::ReadOnlyFilesystem => FsError::ReadOnly,
        IoErrorKind::InvalidInput => FsError::InvalidPath,
        IoErrorKind::InvalidData => FsError::InvalidPath,
        IoErrorKind::StorageFull => FsError::InsufficientSpace,
        IoErrorKind::NotSeekable => FsError::InvalidSeek,
        IoErrorKind::QuotaExceeded => FsError::Quota,
        IoErrorKind::FileTooLarge => FsError::FileTooLarge,
        IoErrorKind::ResourceBusy => FsError::Busy,
        IoErrorKind::ExecutableFileBusy => FsError::TextFileBusy,
        IoErrorKind::Deadlock => FsError::Deadlock,
        IoErrorKind::CrossesDevices => FsError::CrossDevice,
        IoErrorKind::TooManyLinks => FsError::TooManyLinks,
        IoErrorKind::InvalidFilename => FsError::NameTooLong,
        IoErrorKind::ArgumentListTooLong => FsError::NameTooLong,
        IoErrorKind::Interrupted => FsError::Interrupted,
        IoErrorKind::Unsupported => FsError::Unsupported,
        IoErrorKind::OutOfMemory => FsError::InsufficientMemory,
        IoErrorKind::Other => FsError::Io(message),
    }
}

impl HostError {
    /// The classified form of this failure.
    pub open spec fn classify(self) -> FsError<Seq<char>> {
        classified(self.kind, self.message@)
    }
}

/// A host reply with its failure in the form that contracts use.
pub open spec fn host_outcome<T>(r: Result<T, HostError>) -> Result<T, FsError<Seq<char>>> {
    match r {
        Ok(v) => Ok(v),
        Err(e) => Err(e.classify()),
    }
}

/// Classifies the failure that a host reply holds, if any.
pub fn checked<T>(reply: Result<T, HostError>) -> (r: Result<T, FsError>)
    ensures
        outcome(r) == host_outcome(reply),
{
    match reply {
        Ok(v) => Ok(v),
        Err(e) => Err(FsError::from_io(e)),
    }
}

impl FsError {
    /// Preserves the portable part of an operating-system failure, so that a
    /// guest is told a specific error code instead of a generic I/O error.
    pub fn from_io(error: HostError) -> (r: FsError)
        ensures
            r@ == error.classify(),
    {
        match error.kind {
            IoErrorKind::NotFound => FsError::NoEntry,
            IoErrorKind::PermissionDenied => FsError::Access,
            IoErrorKind::AlreadyExists => FsError::Exist,
            IoErrorKind::WouldBlock => FsError::WouldBlock,
            IoErrorKind::NotADirectory => FsError::NotDirectory,
            IoErrorKind::IsADirectory => FsError::IsDirectory,
            IoErrorKind::DirectoryNotEmpty => FsError::NotEmpty,
            IoErrorKind::ReadOnlyFilesystem => FsError::ReadOnly,
            IoErrorKind::InvalidInput => FsError::InvalidPath,
            IoErrorKind::InvalidData => FsError::InvalidPath,
            IoErrorKind::StorageFull => FsError::InsufficientSpace,
            IoErrorKind::NotSeekable => FsError::InvalidSeek,
            IoErrorKind::QuotaExceeded => FsError::Quota,
            IoErrorKind::FileTooLarge => FsError::FileTooLarge,
            IoErrorKind::ResourceBusy => FsError::Busy,
            IoErrorKind::ExecutableFileBusy => FsError::TextFileBusy,
            IoErrorKind::Deadlock => FsError::Deadlock,
            IoErrorKind::CrossesDevices => FsError::CrossDevice,
            IoErrorKind::TooManyLinks => FsError::TooManyLinks,
            IoErrorKind::InvalidFilename => FsError::NameTooLong,
            IoErrorKind::ArgumentListTooLong => FsError::NameTooLong,
            IoErrorKind::Interrupted => FsError::Interrupted,
            IoErrorKind::Unsupported => FsError::Unsupported,
            IoErrorKind::OutOfMemory => FsError::InsufficientMemory,
            IoErrorKind::Other => FsError::Io(error.message),
        }
    }

    /// The error as diagnostics show it: the name of its variant and, where it
    /// carries a text, that text quoted.
    pub fn debug_text(&self) -> (r: String)
        ensures
            r@ == debug_of(self@),
    {
        match self {
            FsError::Access => "Access".to_owned(),
            FsError::BadDescriptor => "BadDescriptor".to_owned(),
            FsError::Busy => "Busy".to_owned(),
            FsError::CrossDevice => "CrossDevice".to_owned(),
            FsError::Deadlock => "Deadlock".to_owned(),
            FsError::Exist => "Exist".to_owned(),
            FsError::FileTooLarge => "FileTooLarge".to_owned(),
            FsError::InsufficientMemory => "InsufficientMemory".to_owned(),
            FsError::InsufficientSpace => "InsufficientSpace".to_owned(),
            FsError::Interrupted => "Interrupted".to_owned(),
            FsError::NotPermitted => "NotPermitted".to_owned(),
            FsError::NoEntry => "NoEntry".to_owned(),
            FsError::NotDirectory => "NotDirectory".to_owned(),
            FsError::IsDirectory => "IsDirectory".to_owned(),
            FsError::NotEmpty => "NotEmpty".to_owned(),
            FsError::NameTooLong => "NameTooLong".to_owned(),
            FsError::Overflow => "Overflow".to_owned(),
            FsError::Quota => "Quota".to_owned(),
            FsError::ReadOnly => "ReadOnly".to_owned(),
            FsError::InvalidSeek => "InvalidSeek".to_owned(),
            FsError::TextFileBusy => "TextFileBusy".to_owned(),
            FsError::TooManyLinks => "TooManyLinks".to_owned(),
            FsError::Unsupported => "Unsupported".to_owned(),
            FsError::WouldBlock => "WouldBlock".to_owned(),
            FsError::InvalidPath => "InvalidPath".to_owned(),
            FsError::SymlinkLoop => "SymlinkLoop".to_owned(),
            FsError::Io(message) => {
                let quoted = quote_debug(message.as_str());
                unclassified_text(quoted.as_str())
            },
        }
    }
}

/// The debug form of a text: quoted, with special characters escaped.
pub uninterp spec fn debug_quoted(s: Seq<char>) -> Seq<char>;

/// Formats a string with `{:?}`: the result is the debug form of its text,
/// which depends on nothing else.
#[verifier::external_body]
fn quote_debug(s: &str) -> (r: String)
    ensures
        r@ == debug_quoted(s@),
{
    format!("{:?}", s)
}

/// How diagnostics show a failure that carries a text, where `quoted` is the
/// debug form of that text.
pub fn unclassified_text(quoted: &str) -> (r: String)
    ensures
        r@ == "Io("@ + quoted@ + ")"@,
{
    concat3("Io(", quoted, ")")
}

/// The text by which diagnostics show an error.
pub open spec fn debug_of(e: FsError<Seq<char>>) -> Seq<char> {
    match e {
        FsError::Access => "Access"@,
        FsError::BadDescriptor => "BadDescriptor"@,
        FsError::Busy => "Busy"@,
        FsError::CrossDevice => "CrossDevice"@,
        FsError::Deadlock => "Deadlock"@,
        FsError::Exist => "Exist"@,
        FsError::FileTooLarge => "FileTooLarge"@,
        FsError::InsufficientMemory => "InsufficientMemory"@,
        FsError::InsufficientSpace => "InsufficientSpace"@,
        FsError::Interrupted => "Interrupted"@,
        FsError::NotPermitted => "NotPermitted"@,
        FsError::NoEntry => "NoEntry"@,
        FsError::NotDirectory => "NotDirectory"@,
        FsError::IsDirectory => "IsDirectory"@,
        FsError::NotEmpty => "NotEmpty"@,
        FsError::NameTooLong => "NameTooLong"@,
        FsError::Overflow => "Overflow"@,
        FsError::Quota => "Quota"@,
        FsError::ReadOnly => "ReadOnly"@,
        FsError::InvalidSeek => "InvalidSeek"@,
        FsError::TextFileBusy => "TextFileBusy"@,
        FsError::TooManyLinks => "TooManyLinks"@,
        FsError::Unsupported => "Unsupported"@,
        FsError::WouldBlock => "WouldBlock"@,
        FsError::InvalidPath => "InvalidPath"@,
        FsError::SymlinkLoop => "SymlinkLoop"@,
        FsError::Io(message) => "Io("@ + debug_quoted(message) + ")"@,
    }
}

/// Why a directory could not be mounted.
#[derive(Debug, Clone, PartialEq, Eq)]
pub enum MountError<S = String> {
    /// The host directory is, contains, or lies inside a directory that is
    /// mounted with another lifetime.
    Overlap,
    /// The filesystem has no room for another descriptor.
    Fs(FsError<S>),
}

impl View for MountError<String> {
    type V = MountError<Seq<char>>;

    open spec fn view(&self) -> MountError<Seq<char>> {
        match *self {
            MountError::Overlap => MountError::Overlap,
            MountError::Fs(e) => MountError::Fs(e@),
        }
    }
}

impl MountError {
    /// The text that reports this failure.
    pub fn message(&self) -> (r: String)
        ensures
            r@ == mount_failure(self@),
    {
        match self {
            MountError::Overlap => {
                "host directories with different lifetimes must not overlap".to_owned()
            },
            MountError::Fs(e) => e.debug_text(),
        }
    }
}

/// The text that reports why a directory could not be mounted.
pub open spec fn mount_failure(e: MountError<Seq<char>>) -> Seq<char> {
    match e {
        MountError::Overlap => "host directories with different lifetimes must not overlap"@,
        MountError::Fs(e) => debug_of(e),
    }
}

/// Why [`CapFs::read_guest_file`](crate::cap_fs::CapFs::read_guest_file) failed.
#[derive(Debug, Clone, Copy, PartialEq, Eq, Structural)]
pub enum GuestFileError {
    /// The path does not begin with `/`.
    NotAbsolute,
    /// The path names no file below its first component.
    NoFileName,
    /// What follows the first component is not an acceptable path.
    InvalidPath,
    /// The path can only name a directory.
    NamesDirectory,
    /// No directory is mounted at the first component.
    NoPreopen,
    /// The mounted directory does not grant reading.
    DirectoryDenied,
    /// The mounted directory does not grant reading its files.
    FilesDenied,
    /// The host could not open the file.
    NotFound,
    /// The host could not tell the size of the file.
    StatFailed,
    /// The file is larger than one read may be.
    TooLarge { size: u64, limit: u64 },
    /// The read budget of this run does not cover the file.
    QuotaExceeded,
    /// The host could not read the file.
    ReadFailed,
}

/// The mount point that a guest path names: `/` and its first component.
pub open spec fn mount_point(path: Seq<char>) -> Seq<char> {
    let rest = if begins_with(path, "/"@) {
        path.skip(1)
    } else {
        path
    };
    match split_once(rest, '/') {
        Some(parts) => "/"@ + parts.0,
        None => "/"@,
    }
}

/// The mount point that a guest path names.
pub fn mount_point_text(path: &str) -> (r: String)
    ensures
        r@ == mount_point(path@),
{
    proof {
        reveal_strlit("/");
    }
    let rest = match strip_prefix_text(path, "/") {
        Some(rest) => rest,
        None => path.to_owned(),
    };
    match split_once_text(rest.as_str(), '/') {
        Some(parts) => concat2("/", parts.0.as_str()),
        None => "/".to_owned(),
    }
}

impl GuestFileError {
    /// The text that reports this failure for `path`.
    pub open spec fn text(self, path: Seq<char>) -> Seq<char> {
        match self {
            GuestFileError::NotAbsolute => "guest path must be absolute: "@ + path,
            GuestFileError::NoFileName => "path must include a directory and filename: "@ + path,
            GuestFileError::InvalidPath => "invalid guest path: "@ + path,
            GuestFileError::NamesDirectory => "guest path must name a file: "@ + path,
            GuestFileError::NoPreopen => "no preopen for "@ + mount_point(path),
            GuestFileError::DirectoryDenied => "read permission denied on "@ + mount_point(path),
            GuestFileError::FilesDenied => "read permission denied on files in "@ + mount_point(
                path,
            ),
            GuestFileError::NotFound => "file not found: "@ + path,
            GuestFileError::StatFailed => "failed to stat: "@ + path,
            GuestFileError::TooLarge { size, limit } => "file too large ("@ + decimal(size as nat)
                + " bytes, max "@ + decimal(limit as nat) + " bytes): "@ + path,
            GuestFileError::QuotaExceeded => "filesystem read quota exceeded: "@ + debug_of(
                FsError::Quota,
            ),
            GuestFileError::ReadFailed => "failed to read: "@ + path,
        }
    }

    /// The text that reports this failure for `path`.
    pub fn message(&self, path: &str) -> (r: String)
        ensures
            r@ == self.text(path@),
    {
        match *self {
            GuestFileError::NotAbsolute => concat2("guest path must be absolute: ", path),
            GuestFileError::NoFileName => concat2(
                "path must include a directory and filename: ",
                path,
            ),
            GuestFileError::InvalidPath => concat2("invalid guest path: ", path),
            GuestFileError::NamesDirectory => concat2("guest path must name a file: ", path),
            GuestFileError::NoPreopen => {
                let mount = mount_point_text(path);
                concat2("no preopen for ", mount.as_str())
            },
            GuestFileError::DirectoryDenied => {
                let mount = mount_point_text(path);
                concat2("read permission denied on ", mount.as_str())
            },
            GuestFileError::FilesDenied => {
                let mount = mount_point_text(path);
                concat2("read permission denied on files in ", mount.as_str())
            },
            GuestFileError::NotFound => concat2("file not found: ", path),
            GuestFileError::StatFailed => concat2("failed to stat: ", path),
            GuestFileError::TooLarge { size, limit } => {
                let size_text = decimal_text(size);
                let limit_text = decimal_text(limit);
                let head = concat3("file too large (", size_text.as_str(), " bytes, max ");
                let tail = concat3(limit_text.as_str(), " bytes): ", path);
                let r = concat2(head.as_str(), tail.as_str());
                assert(r@ =~= self.text(path@));
                r
            },
            GuestFileError::QuotaExceeded => concat2("filesystem read quota exceeded: ", "Quota"),
            GuestFileError::ReadFailed => concat2("failed to read: ", path),
        }
    }
}

/// Why [`CapFs::write_output_path`](crate::cap_fs::CapFs::write_output_path) failed.
#[derive(Debug, Clone, Copy, PartialEq, Eq, Structural)]
pub enum OutputPathError {
    /// The path does not begin with `/output/`.
    NotRooted,
    /// What follows `/output/` is not an acceptable path.
    InvalidPath,
    /// The path can only name a directory.
    NamesDirectory,
    /// No output directory is mounted.
    NoOutput,
    /// The output directory does not grant changing it.
    DirectoryDenied,
    /// The output directory does not grant writing its files.
    FilesDenied,
    /// The host could not tell whether the file exists.
    StatFailed,
    /// The creation budget of this run is used up.
    CreationQuota,
    /// The write budget of this run does not cover the data.
    WriteQuota,
    /// The host could not create the file.
    CreateFailed,
    /// The host could not write the file.
    WriteFailed,
}

impl OutputPathError {
    /// The text that reports this failure for `path`.
    pub open spec fn text(self, path: Seq<char>) -> Seq<char> {
        match self {
            OutputPathError::NotRooted => "path must be rooted at /output: "@ + path,
            OutputPathError::InvalidPath => "invalid path under /output: "@ + path,
            OutputPathError::NamesDirectory => "output path must name a file: "@ + path,
            OutputPathError::NoOutput => "no output directory configured"@,
            OutputPathError::DirectoryDenied => "write permission denied on output directory"@,
            OutputPathError::FilesDenied => "write permission denied on output files"@,
            OutputPathError::StatFailed => "failed to stat output file: "@ + path,
            OutputPathError::CreationQuota => "filesystem creation quota exceeded: "@ + debug_of(
                FsError::Quota,
            ),
            OutputPathError::WriteQuota => "filesystem write quota exceeded: "@ + debug_of(
                FsError::Quota,
            ),
            OutputPathError::CreateFailed => "failed to create output file: "@ + path,
            OutputPathError::WriteFailed => "failed to write output file: "@ + path,
        }
    }

    /// The text that reports this failure for `path`.
    pub fn message(&self, path: &str) -> (r: String)
        ensures
            r@ == self.text(path@),
    {
        match *self {
            OutputPathError::NotRooted => concat2("path must be rooted at /output: ", path),
            OutputPathError::InvalidPath => concat2("invalid path under /output: ", path),
            OutputPathError::NamesDirectory => concat2("output path must name a file: ", path),
            OutputPathError::NoOutput => "no output directory configured".to_owned(),
            OutputPathError::DirectoryDenied => {
                "write permission denied on output directory".to_owned()
            },
            OutputPathError::FilesDenied => "write permission denied on output files".to_owned(),
            OutputPathError::StatFailed => concat2("failed to stat output file: ", path),
            OutputPathError::CreationQuota => concat2(
                "filesystem creation quota exceeded: ",
                "Quota",
            ),
            OutputPathError::WriteQuota => concat2("filesystem write quota exceeded: ", "Quota"),
            OutputPathError::CreateFailed => concat2("failed to create output file: ", path),
            OutputPathError::WriteFailed => concat2("failed to write output file: ", path),
        }
    }
}

/// Every kind of host failure that is told apart keeps its meaning; any other
/// keeps its text.
pub proof fn law_host_failures_keep_their_meaning(e: HostError)
    ensures
        e.kind is NotFound ==> e.classify() == FsErrorView::NoEntry,
        e.kind is PermissionDenied ==> e.classify() == FsErrorView::Access,
        e.kind is AlreadyExists ==> e.classify() == FsErrorView::Exist,
        e.kind is WouldBlock ==> e.classify() == FsErrorView::WouldBlock,
        e.kind is NotADirectory ==> e.classify() == FsErrorView::NotDirectory,
        e.kind is IsADirectory ==> e.classify() == FsErrorView::IsDirectory,
        e.kind is DirectoryNotEmpty ==> e.classify() == FsErrorView::NotEmpty,
        e.kind is ReadOnlyFilesystem ==> e.classify() == FsErrorView::ReadOnly,
        e.kind is InvalidInput ==> e.classify() == FsErrorView::InvalidPath,
        e.kind is InvalidData ==> e.classify() == FsErrorView::InvalidPath,
        e.kind is StorageFull ==> e.classify() == FsErrorView::InsufficientSpace,
        e.kind is NotSeekable ==> e.classify() == FsErrorView::InvalidSeek,
        e.kind is QuotaExceeded ==> e.classify() == FsErrorView::Quota,
        e.kind is FileTooLarge ==> e.classify() == FsErrorView::FileTooLarge,
        e.kind is ResourceBusy ==> e.classify() == FsErrorView::Busy,
        e.kind is ExecutableFileBusy ==> e.classify() == FsErrorView::TextFileBusy,
        e.kind is Deadlock ==> e.classify() == FsErrorView::Deadlock,
        e.kind is CrossesDevices ==> e.classify() == FsErrorView::CrossDevice,
        e.kind is TooManyLinks ==> e.classify() == FsErrorView::TooManyLinks,
        e.kind is InvalidFilename ==> e.classify() == FsErrorView::NameTooLong,
        e.kind is ArgumentListTooLong ==> e.classify() == FsErrorView::NameTooLong,
        e.kind is Interrupted ==> e.classify() == FsErrorView::Interrupted,
        e.kind is Unsupported ==> e.classify() == FsErrorView::Unsupported,
        e.kind is OutOfMemory ==> e.classify() == FsErrorView::InsufficientMemory,
        e.kind is Other ==> e.classify() == FsErrorView::Io(e.message@),
{
}

/// An error is seen in contracts as what it is.
pub proof fn law_errors_are_seen_as_they_are(e: FsError, m: MountError)
    ensures
        e is Access <==> e@ is Access,
        e is BadDescriptor <==> e@ is BadDescriptor,
        e is Busy <==> e@ is Busy,
        e is CrossDevice <==> e@ is CrossDevice,
        e is Deadlock <==> e@ is Deadlock,
        e is Exist <==> e@ is Exist,
        e is FileTooLarge <==> e@ is FileTooLarge,
        e is InsufficientMemory <==> e@ is InsufficientMemory,
        e is InsufficientSpace <==> e@ is InsufficientSpace,
        e is Interrupted <==> e@ is Interrupted,
        e is NotPermitted <==> e@ is NotPermitted,
        e is NoEntry <==> e@ is NoEntry,
        e is NotDirectory <==> e@ is NotDirectory,
        e is IsDirectory <==> e@ is IsDirectory,
        e is NotEmpty <==> e@ is NotEmpty,
        e is NameTooLong <==> e@ is NameTooLong,
        e is Overflow <==> e@ is Overflow,
        e is Quota <==> e@ is Quota,
        e is ReadOnly <==> e@ is ReadOnly,
        e is InvalidSeek <==> e@ is InvalidSeek,
        e is TextFileBusy <==> e@ is TextFileBusy,
        e is TooManyLinks <==> e@ is TooManyLinks,
        e is Unsupported <==> e@ is Unsupported,
        e is WouldBlock <==> e@ is WouldBlock,
        e is InvalidPath <==> e@ is InvalidPath,
        e is SymlinkLoop <==> e@ is SymlinkLoop,
        e matches FsError::Io(message) ==> e@ == FsErrorView::Io(message@),
        e@ is Io ==> e is Io,
        m is Overlap <==> m@ is Overlap,
        m matches MountError::Fs(inner) ==> m@ == MountError::Fs(inner@),
{
}

/// A result is seen in contracts as what it is: a value as the value, an error
/// as that error, a failure of the host as what it stands for.
pub proof fn law_results_are_seen_as_they_are<T>(r: Result<T, FsError>, h: Result<T, HostError>)
    ensures
        r matches Ok(v) ==> outcome(r) == Ok::<T, FsErrorView>(v),
        r matches Err(e) ==> outcome(r) == Err::<T, FsErrorView>(e@),
        h matches Ok(v) ==> host_outcome(h) == Ok::<T, FsErrorView>(v),
        h matches Err(e) ==> host_outcome(h) == Err::<T, FsErrorView>(e.classify()),
{
}

/// Diagnostics show an error by its name, and one that carries a text with that
/// text quoted.
pub proof fn law_diagnostics_name_the_error(message: Seq<char>, e: FsErrorView)
    ensures
        debug_of(FsErrorView::Access) == "Access"@,
        debug_of(FsErrorView::BadDescriptor) == "BadDescriptor"@,
        debug_of(FsErrorView::Busy) == "Busy"@,
        debug_of(FsErrorView::CrossDevice) == "CrossDevice"@,
        debug_of(FsErrorView::Deadlock) == "Deadlock"@,
        debug_of(FsErrorView::Exist) == "Exist"@,
        debug_of(FsErrorView::FileTooLarge) == "FileTooLarge"@,
        debug_of(FsErrorView::InsufficientMemory) == "InsufficientMemory"@,
        debug_of(FsErrorView::InsufficientSpace) == "InsufficientSpace"@,
        debug_of(FsErrorView::Interrupted) == "Interrupted"@,
        debug_of(FsErrorView::NotPermitted) == "NotPermitted"@,
        debug_of(FsErrorView::NoEntry) == "NoEntry"@,
        debug_of(FsErrorView::NotDirectory) == "NotDirectory"@,
        debug_of(FsErrorView::IsDirectory) == "IsDirectory"@,
        debug_of(FsErrorView::NotEmpty) == "NotEmpty"@,
        debug_of(FsErrorView::NameTooLong) == "NameTooLong"@,
        debug_of(FsErrorView::Overflow) == "Overflow"@,
        debug_of(FsErrorView::Quota) == "Quota"@,
        debug_of(FsErrorView::ReadOnly) == "ReadOnly"@,
        debug_of(FsErrorView::InvalidSeek) == "InvalidSeek"@,
        debug_of(FsErrorView::TextFileBusy) == "TextFileBusy"@,
        debug_of(FsErrorView::TooManyLinks) == "TooManyLinks"@,
        debug_of(FsErrorView::Unsupported) == "Unsupported"@,
        debug_of(FsErrorView::WouldBlock) == "WouldBlock"@,
        debug_of(FsErrorView::InvalidPath) == "InvalidPath"@,
        debug_of(FsErrorView::SymlinkLoop) == "SymlinkLoop"@,
        debug_of(FsErrorView::Io(message)) == "Io("@ + debug_quoted(message) + ")"@,
        mount_failure(MountError::Fs(e)) == debug_of(e),
        mount_failure(MountError::Overlap)
            == "host directories with different lifetimes must not overlap"@,
{
}

/// The mount point of a guest path is the slash and the first component.
pub proof fn law_mount_points(root: Seq<char>, rest: Seq<char>)
    requires
        !root.contains('/'),
    ensures
        mount_point("/"@ + root + "/"@ + rest) == "/"@ + root,
{
    let path = "/"@ + root + "/"@ + rest;
    reveal_strlit("/");
    assert(path.take(1) =~= "/"@);
    let below = path.skip(1);
    assert(below =~= root + seq!['/'] + rest);
    lemma_span_until(root, '/', rest);
    assert(below.take(root.len() as int) =~= root);
}

/// A report on a file that could not be read says why, and of which path or
/// mount.
pub proof fn law_read_failures_are_reported(path: Seq<char>, size: u64, limit: u64)
    ensures
        GuestFileError::NotAbsolute.text(path) == "guest path must be absolute: "@ + path,
        GuestFileError::NoFileName.text(path) == "path must include a directory and filename: "@
            + path,
        GuestFileError::InvalidPath.text(path) == "invalid guest path: "@ + path,
        GuestFileError::NamesDirectory.text(path) == "guest path must name a file: "@ + path,
        GuestFileError::NoPreopen.text(path) == "no preopen for "@ + mount_point(path),
        GuestFileError::DirectoryDenied.text(path) == "read permission denied on "@ + mount_point(
            path,
        ),
        GuestFileError::FilesDenied.text(path) == "read permission denied on files in "@
            + mount_point(path),
        GuestFileError::NotFound.text(path) == "file not found: "@ + path,
        GuestFileError::StatFailed.text(path) == "failed to stat: "@ + path,
        (GuestFileError::TooLarge { size, limit }).text(path) == "file too large ("@ + decimal(
            size as nat,
        ) + " bytes, max "@ + decimal(limit as nat) + " bytes): "@ + path,
        GuestFileError::QuotaExceeded.text(path) == "filesystem read quota exceeded: "@ + "Quota"@,
        GuestFileError::ReadFailed.text(path) == "failed to read: "@ + path,
{
}

/// A report on a file that could not be written says why, and of which path.
pub proof fn law_write_failures_are_reported(path: Seq<char>)
    ensures
        OutputPathError::NotRooted.text(path) == "path must be rooted at /output: "@ + path,
        OutputPathError::InvalidPath.text(path) == "invalid path under /output: "@ + path,
        OutputPathError::NamesDirectory.text(path) == "output path must name a file: "@ + path,
        OutputPathError::NoOutput.text(path) == "no output directory configured"@,
        OutputPathError::DirectoryDenied.text(path)
            == "write permission denied on output directory"@,
        OutputPathError::FilesDenied.text(path) == "write permission denied on output files"@,
        OutputPathError::StatFailed.text(path) == "failed to stat output file: "@ + path,
        OutputPathError::CreationQuota.text(path) == "filesystem creation quota exceeded: "@
            + "Quota"@,
        OutputPathError::WriteQuota.text(path) == "filesystem write quota exceeded: "@ + "Quota"@,
        OutputPathError::CreateFailed.text(path) == "failed to create output file: "@ + path,
        OutputPathError::WriteFailed.text(path) == "failed to write output file: "@ + path,
{
}

/// A guest path without a slash below its root is at no mount of its own, and a
/// leading slash makes no difference to where a path is.
pub proof fn law_mount_points_of_other_paths(root: Seq<char>, rest: Seq<char>)
    requires
        !root.contains('/'),
    ensures
        mount_point("/"@ + root) == "/"@,
        mount_point(root) == "/"@,
        root.len() > 0 ==> mount_point(root + "/"@ + rest) == "/"@ + root,
{
    reveal_strlit("/");
    let rooted = "/"@ + root;
    assert(rooted.take(1) =~= "/"@);
    assert(rooted.skip(1) =~= root);
    law_cutting_once(root, '/');
    if split_once(root, '/') is Some {
        let (a, b) = split_once(root, '/')->0;
        assert(root[a.len() as int] == '/');
    }
    if root.len() > 0 {
        let path = root + "/"@ + rest;
        assert(root.contains(root[0]));
        assert(path.take(1)[0] == root[0]);
        assert("/"@[0] == '/');
        assert(path =~= root + seq!['/'] + rest);
        lemma_span_until(root, '/', rest);
        assert(path.take(root.len() as int) =~= root);
    }
}

/// Failures of the host come out of the calls as the errors they mean, and
/// every report is the text of its error.
pub proof fn law_failures_are_handed_on<T>(
    failure: HostError,
    error: FsError,
    reply: Result<T, HostError>,
    r: Result<T, FsError>,
    shown: String,
    mount: MountError,
    told: String,
    read: GuestFileError,
    write: OutputPathError,
    path: &str,
    not_read: String,
    not_written: String,
    quoted: &str,
    unclassified: String,
)
    requires
        call_ensures(FsError::from_io, (failure,), error),
        call_ensures(checked::<T>, (reply,), r),
        call_ensures(FsError::debug_text, (&error,), shown),
        call_ensures(MountError::message, (&mount,), told),
        call_ensures(GuestFileError::message, (&read, path), not_read),
        call_ensures(OutputPathError::message, (&write, path), not_written),
        call_ensures(unclassified_text, (quoted,), unclassified),
    ensures
        error@ == failure.classify(),
        r is Ok <==> reply is Ok,
        r matches Ok(v) ==> reply->Ok_0 == v,
        r matches Err(e) ==> e@ == reply->Err_0.classify(),
        shown@ == debug_of(failure.classify()),
        mount is Overlap ==> told@ == "host directories with different lifetimes must not overlap"@,
        mount matches MountError::Fs(e) ==> told@ == debug_of(e@),
        not_read@ == read.text(path@),
        not_written@ == write.text(path@),
        unclassified@ == "Io("@ + quoted@ + ")"@,
{
}

/// The mount point that is reported of a guest path is its first component.
pub proof fn law_mount_points_are_reported(
    root: Seq<char>,
    rest: Seq<char>,
    path: &str,
    reported: String,
)
    requires
        !root.contains('/'),
        path@ == "/"@ + root + "/"@ + rest,
        call_ensures(mount_point_text, (path,), reported),
    ensures
        reported@ == "/"@ + root,
{
    law_mount_points(root, rest);
}

} // verus!
