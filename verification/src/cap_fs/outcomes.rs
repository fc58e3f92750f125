//! What each operation is for.
//!
//! The laws say of every operation what it yields, by the state it starts from
//! and by what the host reported: when it succeeds, which error comes
//! otherwise, and what it leaves behind.
use cap_std::fs::Dir as CapDir;
use vstd::prelude::*;

use super::files::{least, read_amount, ReadPlan, ReadView, WritePlan, WriteView};
use super::laws::law_handles_are_fresh_after_clearing;
use super::listing::{HostEntry, ListingView};
use super::mounts::{host_mount, HostDir};
use super::namespace::{unlink_refusal, ChangeView, RenameStage, RenameView};
use super::open::OpenView;
use super::output::{file_names, rooted, GuestFileReply};
use super::stat::{file_size_replied, stat_replied, StatView};
use super::streams::{advanced, StreamView};
use super::sweep::SweepView;
use super::target::TargetView;
use crate::error::{FsError, FsErrorView, GuestFileError, HostError, MountError, OutputPathError};
use crate::guest_path::{joined, parsed, PathView};
use crate::limits::RunBudget;
use crate::model::{roots_overlap, DirStreamView, FsView, PreopenView, ResolvedView, StreamState};
use crate::perms::{DescriptorStat, DescriptorType, Dir, DirPerms, FilePerms, HostMetadata};
use crate::perms::{MountLifetime, OpenFlags, PathFlags};
use crate::text::{begins_with, lemma_span_until, span_until, texts};

verus! {

/// Every open descriptor is a file or a directory and not both; a directory is
/// what carries a capability, and a file is found below its mount.
pub proof fn law_descriptors_are_files_or_directories(fs: FsView, fd: u32, perms: FilePerms)
    requires
        fs.wf(),
    ensures
        fs.is_file(fd) || fs.is_directory(fd) <==> fs.descriptors.contains_key(fd),
        !(fs.is_file(fd) && fs.is_directory(fd)),
        fs.is_directory(fd) <==> fs.dir_of(fd) is Some,
        fs.is_directory(fd) ==> fs.dir_of(fd) == fs.descriptors[fd].directory
            && fs.descriptors[fd].descriptor_type == DescriptorType::Directory,
        fs.is_file(fd) ==> {
            let mount = fs.preopens[fs.descriptors[fd].root_fd].dir;
            &&& fs.descriptors[fd].descriptor_type == DescriptorType::RegularFile
            &&& fs.root_of(fd) == mount
            &&& fs.file_target(fd).dir == mount
            &&& fs.file_target(fd).path == fs.descriptors[fd].path
        },
        fs.file_grants(fd, perms) <==> fs.is_file(fd) && {
            let granted = fs.preopens[fs.descriptors[fd].root_fd].dir.file_grants();
            &&& perms.reads() ==> granted.reads()
            &&& perms.writes() ==> granted.writes()
        },
{
    if fs.descriptors.contains_key(fd) {
        assert(fs.descriptor_ok(fd));
    }
}

/// What is reported of a descriptor's rights is what it grants: reading, and
/// changing for a directory or writing for a file. Only a directory is said to
/// be changeable, and nothing is reported of what is not open.
pub proof fn law_reported_rights_are_granted(fs: FsView, fd: u32)
    requires
        fs.wf(),
    ensures
        fs.flags_of(fd) is None <==> !fs.descriptors.contains_key(fd),
        fs.flags_of(fd) matches Some(flags) ==> {
            let mount = fs.preopens[fs.descriptors[fd].root_fd].dir;
            let changes = fs.is_directory(fd) && mount.grants().mutates();
            &&& flags.read <==> if fs.is_directory(fd) {
                mount.grants().reads()
            } else {
                mount.file_grants().reads()
            }
            &&& flags.write <==> changes || (fs.is_file(fd) && mount.file_grants().writes())
            &&& flags.mutate_directory <==> changes
        },
{
    if fs.descriptors.contains_key(fd) {
        assert(fs.descriptor_ok(fd));
    }
}

/// A charge succeeds exactly where the counter and the amount together stay
/// within the limit; it adds the amount to that one counter and changes
/// nothing else.
pub proof fn law_charges_are_exact(fs: FsView, amount: u64)
    ensures
        ({
            let used = fs.budget.bytes_read + amount;
            fs.reads_charged(amount) == if used <= fs.limits.max_read_bytes_per_run {
                Some(FsView { budget: RunBudget { bytes_read: used as u64, ..fs.budget }, ..fs })
            } else {
                None
            }
        }),
        ({
            let used = fs.budget.bytes_written + amount;
            fs.writes_charged(amount) == if used <= fs.limits.max_written_bytes_per_run {
                Some(FsView { budget: RunBudget { bytes_written: used as u64, ..fs.budget }, ..fs })
            } else {
                None
            }
        }),
        ({
            let used = fs.budget.creations + 1;
            fs.creation_charged() == if used <= fs.limits.max_creations_per_run {
                Some(FsView { budget: RunBudget { creations: used as u64, ..fs.budget }, ..fs })
            } else {
                None
            }
        }),
        ({
            let used = fs.budget.directory_entries + amount;
            fs.entries_charged(amount) == if used <= fs.limits.max_directory_entries_per_run {
                Some(
                    FsView {
                        budget: RunBudget { directory_entries: used as u64, ..fs.budget },
                        ..fs
                    },
                )
            } else {
                None
            }
        }),
        RunBudget::unused().bytes_read == 0,
        RunBudget::unused().bytes_written == 0,
        RunBudget::unused().creations == 0,
        RunBudget::unused().directory_entries == 0,
{
}

/// A guest path is resolved exactly where it is acceptable, the descriptor is
/// an open directory, and the path below the mount keeps to the bounds. It
/// leads into the mount of the directory, by the path of the directory followed
/// by what the guest asked for.
pub proof fn law_paths_are_resolved(fs: FsView, dir_fd: u32, path: Seq<char>)
    ensures
        ({
            let parent = fs.descriptors[dir_fd];
            match (parsed(path), fs.resolved(dir_fd, path)) {
                (None, r) => r == Err::<ResolvedView, FsErrorView>(FsError::InvalidPath),
                (Some(asked), Err(e)) => if !fs.is_directory(dir_fd) {
                    e == FsErrorView::BadDescriptor
                } else {
                    e == FsErrorView::InvalidPath && joined(parent.path, asked) is None
                },
                (Some(asked), Ok(at)) => {
                    &&& fs.is_directory(dir_fd)
                    &&& joined(parent.path, asked) is Some
                    &&& at.root_fd == parent.root_fd
                    &&& at.dir_relative == asked
                    &&& at.root_relative.components == parent.path.components + asked.components
                    &&& at.root_relative.requires_directory == asked.requires_directory
                },
            }
        }),
{
}

/// A request to open is granted exactly where the path can be resolved and,
/// where something is to be created or cut, the directory may be changed. It
/// carries the flags as they were asked for; a path that can only name a
/// directory has to be one.
pub proof fn law_open_requests_are_checked(
    fs: FsView,
    dir_fd: u32,
    path: Seq<char>,
    path_flags: PathFlags,
    flags: OpenFlags,
)
    ensures
        match (
            fs.resolved(dir_fd, path),
            fs.open_request(dir_fd, path, path_flags, flags),
        ) {
            (Err(e), r) => r == Err::<OpenView, _>(e),
            (Ok(_), Err(e)) => e == FsErrorView::NotPermitted && (flags.creates()
                || flags.truncates())
                && !fs.descriptors[dir_fd].directory->0.grants().mutates(),
            (Ok(at), Ok(op)) => {
                let dir = fs.descriptors[dir_fd].directory->0;
                &&& flags.creates() || flags.truncates() ==> dir.grants().mutates()
                &&& op.dir_fd == dir_fd
                &&& op.root_fd == at.root_fd
                &&& op.target.dir == dir
                &&& op.target.path == at.dir_relative
                &&& op.root_path == at.root_relative
                &&& op.follows == path_flags.follows()
                &&& op.creates == flags.creates()
                &&& op.truncates == flags.truncates()
                &&& op.wants_directory == (flags.wants_directory()
                    || parsed(path)->0.requires_directory)
            },
        },
{
}

/// What is found at a path decides how it is opened. A file that is there is
/// cut exactly where that was asked for, whether or not creating was asked for
/// too, and nothing is charged for it. One that is missing is created exactly
/// where that was asked for, and is charged as one creation.
pub proof fn law_opening_creates_and_truncates(
    fs: FsView,
    op: OpenView,
    found: HostMetadata,
    missing: HostError,
)
    requires
        missing.kind is NotFound,
    ensures
        fs.open_probe(op, Ok(found)).0 == fs,
        fs.open_probe(op, Ok(found)).1 matches Ok(due) ==> due == op.truncates,
        fs.open_probe(op, Err(missing)) matches (after, Ok(due)) ==> {
            &&& due
            &&& op.creates
            &&& !op.wants_directory
            &&& after.budget.creations == fs.budget.creations + 1
            &&& after == FsView {
                budget: RunBudget { creations: after.budget.creations, ..fs.budget },
                ..fs
            }
        },
{
}

/// Opening a path with truncation leaves an empty file: whatever else was asked
/// for, the host is told to create or cut it, so that no byte of what it held
/// remains.
pub proof fn law_truncation_empties_the_file(
    fs: FsView,
    dir_fd: u32,
    path: Seq<char>,
    path_flags: PathFlags,
    flags: OpenFlags,
    later: FsView,
    reply: Result<HostMetadata, HostError>,
)
    requires
        flags.truncates(),
    ensures
        fs.open_request(dir_fd, path, path_flags, flags) matches Ok(op) ==> (later.open_probe(
            op,
            reply,
        ).1 matches Ok(due) ==> due),
{
}

/// Opening a file that is there leaves it as it is unless truncation was asked
/// for.
pub proof fn law_opening_alone_keeps_the_file(
    fs: FsView,
    dir_fd: u32,
    path: Seq<char>,
    path_flags: PathFlags,
    flags: OpenFlags,
    later: FsView,
    found: HostMetadata,
)
    requires
        !flags.truncates(),
    ensures
        fs.open_request(dir_fd, path, path_flags, flags) matches Ok(op) ==> (later.open_probe(
            op,
            Ok(found),
        ).1 matches Ok(due) ==> !due),
{
}

/// Opening succeeds exactly where nothing speaks against it, and of what does,
/// the first in this order is reported: the host's failure, a missing path that
/// is not to be created, a symbolic link that is not to be followed, a path
/// that has to be a directory and is none, a directory that is to be cut, a
/// full table, a creation too many.
pub proof fn law_opening_reports_what_speaks_against_it(
    fs: FsView,
    op: OpenView,
    reply: Result<HostMetadata, HostError>,
)
    ensures
        ({
            let missing = reply is Err;
            let is_dir = reply matches Ok(found) && found.is_dir;
            let is_link = reply matches Ok(found) && found.is_symlink;
            let failed = reply matches Err(e) && !(e.kind is NotFound);
            let absent = missing && !op.creates;
            let looped = is_link && !op.follows;
            let no_directory = op.wants_directory && !is_dir;
            let cut_directory = op.truncates && is_dir;
            let full = fs.descriptors.len() >= fs.limits.max_open_descriptors;
            let spent = missing && fs.budget.creations + 1 > fs.limits.max_creations_per_run;
            match fs.open_probe(op, reply).1 {
                Ok(_) => !failed && !absent && !looped && !no_directory && !cut_directory && !full
                    && !spent,
                Err(e) => if failed {
                    e == reply->Err_0.classify()
                } else if absent {
                    e == FsErrorView::NoEntry
                } else if looped {
                    e == FsErrorView::SymlinkLoop
                } else if no_directory {
                    e == FsErrorView::NoEntry
                } else if cut_directory {
                    e == FsErrorView::InvalidPath
                } else {
                    (full || spent) && e == FsErrorView::Quota
                },
            }
        }),
{
}

/// What is found once the host has done its part decides what was opened: a
/// directory or a file, unless the host fails or a symbolic link stands where
/// none is followed.
pub proof fn law_the_second_look_decides_the_kind(
    op: OpenView,
    reply: Result<HostMetadata, HostError>,
)
    ensures
        match (reply, op.confirm(reply)) {
            (Err(failure), r) => r == Err::<DescriptorType, _>(failure.classify()),
            (Ok(found), Ok(kind)) => {
                &&& op.follows || !found.is_symlink
                &&& kind is Directory <==> found.is_dir
                &&& kind is RegularFile <==> !found.is_dir
            },
            (Ok(found), Err(e)) => found.is_symlink && !op.follows && e
                == FsErrorView::SymlinkLoop,
        },
{
}

/// What was opened is entered under the next handle, as a directory exactly
/// where the host handed one over; it is that directory, and grants what the
/// one around it grants. Nothing else changes. Once the numbers are used up
/// nothing is entered.
pub proof fn law_opened_paths_are_entered(fs: FsView, op: OpenView, opened: Option<CapDir>)
    ensures
        ({
            let (after, r) = fs.open_finish(op, opened);
            let fd = fs.next_handle;
            if fd == u32::MAX {
                r is Err && r->Err_0 is Io && after == fs
            } else {
                let entry = after.descriptors[fd];
                &&& r == Ok::<u32, FsErrorView>(fd)
                &&& after.descriptors.contains_key(fd)
                &&& entry.root_fd == op.root_fd
                &&& entry.path == op.root_path
                &&& entry.parent_fd == Some(op.dir_fd)
                &&& !entry.is_preopen
                &&& match opened {
                    Some(host) => {
                        &&& entry.descriptor_type == DescriptorType::Directory
                        &&& entry.directory is Some
                        &&& entry.directory->0.host() == host
                        &&& entry.directory->0.grants() == op.target.dir.grants()
                        &&& entry.directory->0.file_grants() == op.target.dir.file_grants()
                    },
                    None => entry.descriptor_type == DescriptorType::RegularFile
                        && entry.directory is None,
                }
                &&& after == FsView {
                    descriptors: fs.descriptors.insert(fd, entry),
                    next_handle: (fd + 1) as u32,
                    ..fs
                }
            }
        }),
{
    if let Some(host) = opened {
        Dir::lemma_wrapping(
            host,
            op.target.dir.grants(),
            op.target.dir.file_grants(),
        );
    }
}

/// The smaller of two numbers is one of them, and no larger than either.
pub proof fn law_least(a: u64, b: u64)
    ensures
        least(a, b) <= a,
        least(a, b) <= b,
        least(a, b) == a || least(a, b) == b,
{
}

/// A read holds all that was asked for, or all that is left, or as much as one
/// read may hold: whichever is least, and never less.
pub proof fn law_reads_are_as_large_as_allowed(wanted: u64, available: u64, single_read: u64)
    ensures
        ({
            let amount = read_amount(wanted, available, single_read);
            &&& amount <= wanted
            &&& amount <= available
            &&& amount <= single_read
            &&& amount <= usize::MAX
            &&& amount == wanted || amount == available || amount == single_read || amount
                == usize::MAX
        }),
{
}

/// A request to read is granted exactly on an open file that may be read, and
/// is on that file, at that offset, for that many bytes.
pub proof fn law_read_requests_are_checked(fs: FsView, fd: u32, offset: u64, len: u64)
    ensures
        match fs.read_request(fd, offset, len) {
            Ok(op) => {
                &&& fs.is_file(fd)
                &&& fs.root_of(fd).file_grants().reads()
                &&& op.target == fs.file_target(fd)
                &&& op.offset == offset
                &&& op.len == len
            },
            Err(e) => if fs.is_file(fd) {
                e == FsErrorView::NotPermitted && !fs.root_of(fd).file_grants().reads()
            } else {
                e == FsErrorView::BadDescriptor
            },
        },
{
}

/// Of a file of known size, exactly the bytes between the offset and the end
/// are read, as far as they were asked for and one read may hold them; they are
/// charged, and a read that the budget does not cover is refused. Nothing is
/// read only where nothing was asked for, nothing is left, or nothing may be.
pub proof fn law_reads_hold_what_is_left(fs: FsView, op: ReadView, size: u64)
    ensures
        ({
            let left = if op.offset < size {
                size - op.offset
            } else {
                0
            };
            let wanted = if op.len < left {
                op.len as int
            } else {
                left
            };
            let limited = if wanted < fs.limits.max_single_read_bytes {
                wanted
            } else {
                fs.limits.max_single_read_bytes as int
            };
            let amount = if limited < usize::MAX {
                limited
            } else {
                usize::MAX as int
            };
            match fs.read_size(op, Ok(size)) {
                (after, Ok((start, held))) => {
                    &&& held == amount
                    &&& start == if op.offset < size {
                        op.offset
                    } else {
                        size
                    }
                    &&& after == FsView {
                        budget: RunBudget {
                            bytes_read: (fs.budget.bytes_read + amount) as u64,
                            ..fs.budget
                        },
                        ..fs
                    }
                    &&& amount > 0 ==> fs.budget.bytes_read + amount
                        <= fs.limits.max_read_bytes_per_run
                },
                (after, Err(e)) => {
                    &&& e == FsErrorView::Quota
                    &&& after == fs
                    &&& amount > 0
                    &&& fs.budget.bytes_read + amount > fs.limits.max_read_bytes_per_run
                },
            }
        }),
{
}

/// Reading a file piece by piece, each read beginning where the last one ended,
/// hands out every byte up to the end: a read that asks for something stops
/// short of it only where one read may hold no more.
pub proof fn law_reads_reach_the_end(fs: FsView, op: ReadView, size: u64)
    requires
        op.offset < size,
        op.len > 0,
        fs.limits.max_single_read_bytes > 0,
    ensures
        fs.read_size(op, Ok(size)).1 matches Ok((start, amount)) ==> {
            &&& start == op.offset
            &&& amount > 0
            &&& amount < op.len && amount < fs.limits.max_single_read_bytes && amount < usize::MAX
                ==> start + amount == size
        },
{
}

/// A failure of the host to tell the size of a file is reported, and nothing is
/// charged.
pub proof fn law_unsized_files_are_not_read(
    fs: FsView,
    read: ReadView,
    write: WriteView,
    stream: StreamView,
    failure: HostError,
)
    ensures
        fs.read_size(read, Err(failure)) == (fs, Err::<(u64, u64), _>(failure.classify())),
        write.extension(Err(failure)) == Err::<Option<u64>, _>(failure.classify()),
        stream.remaining(Err(failure)) == Err::<u64, _>(failure.classify()),
{
}

/// A request to write is granted exactly on an open file that may be written,
/// where the budget covers it. It is charged, and is on that file, at that
/// offset, for that many bytes.
pub proof fn law_write_requests_are_checked(fs: FsView, fd: u32, offset: u64, len: u64)
    ensures
        match fs.write_request(fd, offset, len) {
            (after, Ok(op)) => {
                &&& fs.is_file(fd)
                &&& fs.root_of(fd).file_grants().writes()
                &&& fs.budget.bytes_written + len <= fs.limits.max_written_bytes_per_run
                &&& op.target == fs.file_target(fd)
                &&& op.offset == offset
                &&& op.len == len
                &&& after == FsView {
                    budget: RunBudget {
                        bytes_written: (fs.budget.bytes_written + len) as u64,
                        ..fs.budget
                    },
                    ..fs
                }
            },
            (after, Err(e)) => {
                &&& after == fs
                &&& if !fs.is_file(fd) {
                    e == FsErrorView::BadDescriptor
                } else if !fs.root_of(fd).file_grants().writes() {
                    e == FsErrorView::NotPermitted
                } else {
                    e == FsErrorView::Quota && fs.budget.bytes_written + len
                        > fs.limits.max_written_bytes_per_run
                }
            },
        },
{
}

/// A write extends its file exactly where it reaches past the end, and then
/// exactly to where it ends; one past the largest position fails.
pub proof fn law_writes_extend_as_far_as_needed(op: WriteView, size: u64)
    ensures
        match op.extension(Ok(size)) {
            Ok(Some(end)) => end == op.offset + op.len && end > size,
            Ok(None) => op.offset + op.len <= size,
            Err(e) => e == FsErrorView::Overflow && op.offset + op.len > u64::MAX,
        },
{
}

/// A stream is opened exactly on an open file that grants what the stream is
/// for, while there is room; it takes the next handle, stands at the offset
/// that was asked for, and nothing else changes.
pub proof fn law_streams_open_where_asked(fs: FsView, file_fd: u32, offset: u64, is_write: bool)
    ensures
        ({
            let grants = fs.root_of(file_fd).file_grants();
            let granted = if is_write {
                grants.writes()
            } else {
                grants.reads()
            };
            let full = fs.streams.len() + fs.dir_streams.len() >= fs.limits.max_open_streams;
            let id = fs.next_handle;
            match fs.open_stream(file_fd, offset, is_write) {
                (after, Ok(got)) => {
                    &&& fs.is_file(file_fd)
                    &&& granted
                    &&& !full
                    &&& id < u32::MAX
                    &&& got == id
                    &&& after == FsView {
                        streams: fs.streams.insert(id, StreamState { file_fd, offset, is_write }),
                        next_handle: (id + 1) as u32,
                        ..fs
                    }
                },
                (after, Err(e)) => {
                    &&& after == fs
                    &&& if !fs.is_file(file_fd) {
                        e == FsErrorView::BadDescriptor
                    } else if !granted {
                        e == FsErrorView::NotPermitted
                    } else if full {
                        e == FsErrorView::Quota
                    } else {
                        id == u32::MAX && e is Io
                    }
                },
            }
        }),
{
}

/// A read from a stream is on the file behind it, from where the stream stands,
/// for as many bytes as asked for; and up to the end of the file everything is
/// there to be read.
pub proof fn law_streams_read_from_where_they_stand(fs: FsView, id: u32, len: u64, size: u64)
    ensures
        match fs.stream_request(id, len) {
            Ok(op) => {
                let stream = fs.streams[id];
                &&& fs.streams.contains_key(id)
                &&& op.stream_id == id
                &&& op.target == fs.file_target(stream.file_fd)
                &&& op.offset == stream.offset
                &&& op.len == len
                &&& match op.remaining(Ok(size)) {
                    Ok(remaining) => stream.offset < size && stream.offset + remaining == size,
                    Err(e) => stream.offset >= size && e is Io,
                }
            },
            Err(e) => !fs.streams.contains_key(id) && e == FsErrorView::BadDescriptor,
        },
{
}

/// A read from a stream hands out what the host read, and the stream moves on
/// by as many bytes. A read that yields nothing, or fails, is an error and
/// moves nothing.
pub proof fn law_streams_move_by_what_was_read(
    fs: FsView,
    id: u32,
    reply: Result<Vec<u8>, HostError>,
)
    ensures
        match (reply, fs.stream_got(id, reply)) {
            (Err(failure), (after, r)) => after == fs && r == Err::<Vec<u8>, _>(
                failure.classify(),
            ),
            (Ok(read), (after, Ok(data))) => {
                let stream = fs.streams[id];
                &&& data == read
                &&& data@.len() > 0
                &&& fs.streams.contains_key(id)
                &&& after.streams.contains_key(id)
                &&& after.streams[id].file_fd == stream.file_fd
                &&& after.streams[id].is_write == stream.is_write
                &&& stream.offset + data@.len() <= u64::MAX ==> after.streams[id].offset
                    == stream.offset + data@.len()
                &&& stream.offset + data@.len() > u64::MAX ==> after.streams[id].offset
                    == u64::MAX
                &&& after == FsView {
                    streams: fs.streams.insert(id, after.streams[id]),
                    ..fs
                }
            },
            (Ok(read), (after, Err(e))) => {
                &&& after == fs
                &&& read@.len() == 0 ==> e is Io
                &&& read@.len() > 0 ==> !fs.streams.contains_key(id) && e
                    == FsErrorView::BadDescriptor
            },
        },
{
}

/// A stream that was written, or read, moves on by as many bytes, and stays on
/// the same file.
pub proof fn law_streams_move_on(fs: FsView, id: u32, amount: nat)
    requires
        fs.streams.contains_key(id),
    ensures
        ({
            let before = fs.streams[id];
            let after = fs.stream_advanced(id, amount);
            let moved = after.streams[id];
            &&& moved.file_fd == before.file_fd
            &&& moved.is_write == before.is_write
            &&& moved.offset == advanced(before.offset, amount)
            &&& before.offset + amount <= u64::MAX ==> moved.offset == before.offset + amount
            &&& before.offset + amount > u64::MAX ==> moved.offset == u64::MAX
            &&& after == FsView { streams: fs.streams.insert(id, moved), ..fs }
        }),
{
}

/// A write to a stream is a write to the file behind it, at the place where the
/// stream stands.
pub proof fn law_stream_writes_are_file_writes(fs: FsView, id: u32, len: u64)
    ensures
        fs.streams.contains_key(id) ==> fs.stream_write_request(id, len) == fs.write_request(
            fs.streams[id].file_fd,
            fs.streams[id].offset,
            len,
        ),
        !fs.streams.contains_key(id) ==> fs.stream_write_request(id, len) == (
            fs,
            Err::<WriteView, _>(FsErrorView::BadDescriptor),
        ),
{
}

/// A request for metadata is granted exactly where the path can be resolved and
/// the directory may be read; it is on what the path names.
pub proof fn law_stat_requests_are_checked(
    fs: FsView,
    dir_fd: u32,
    path: Seq<char>,
    path_flags: PathFlags,
)
    ensures
        match (fs.resolved(dir_fd, path), fs.stat_request(dir_fd, path, path_flags)) {
            (Err(e), r) => r == Err::<StatView, _>(e),
            (Ok(_), Err(e)) => e == FsErrorView::NotPermitted
                && !fs.descriptors[dir_fd].directory->0.grants().reads(),
            (Ok(at), Ok(op)) => {
                let dir = fs.descriptors[dir_fd].directory->0;
                &&& dir.grants().reads()
                &&& op.target.dir == dir
                &&& op.target.path == at.dir_relative
                &&& op.follows == path_flags.follows()
            },
        },
{
}

/// What is reported of a path is what the host found there: its length, and
/// whether it is a directory, a symbolic link or a file. A path that can only
/// name a directory has to be one.
pub proof fn law_metadata_is_what_was_found(op: StatView, reply: Result<HostMetadata, HostError>)
    ensures
        match (reply, op.report(reply)) {
            (Err(failure), r) => r == Err::<DescriptorStat, _>(failure.classify()),
            (Ok(found), Ok(stat)) => {
                &&& stat.size == found.len
                &&& stat.descriptor_type is Directory <==> found.is_dir
                &&& stat.descriptor_type is SymbolicLink <==> found.is_symlink && !found.is_dir
                &&& stat.descriptor_type is RegularFile <==> !found.is_symlink && !found.is_dir
                &&& op.target.path.requires_directory ==> found.is_dir
            },
            (Ok(found), Err(e)) => {
                &&& op.target.path.requires_directory
                &&& !found.is_dir
                &&& e == FsErrorView::InvalidPath
            },
        },
{
}

/// Asking with and without following a final symbolic link reports the same of
/// what was found.
pub proof fn law_following_does_not_change_the_report(
    target: TargetView,
    reply: Result<HostMetadata, HostError>,
)
    ensures
        (StatView { target, follows: true }).report(reply) == (StatView {
            target,
            follows: false,
        }).report(reply),
{
}

/// A request to change a name is granted exactly where the path can be resolved
/// and the directory may be changed; it is on what the path names.
pub proof fn law_change_requests_are_checked(fs: FsView, dir_fd: u32, path: Seq<char>)
    ensures
        match (fs.resolved(dir_fd, path), fs.change_request(dir_fd, path)) {
            (Err(e), r) => r == Err::<ChangeView, _>(e),
            (Ok(_), Err(e)) => e == FsErrorView::NotPermitted
                && !fs.descriptors[dir_fd].directory->0.grants().mutates(),
            (Ok(at), Ok(op)) => {
                let dir = fs.descriptors[dir_fd].directory->0;
                &&& dir.grants().mutates()
                &&& op.root_fd == at.root_fd
                &&& op.target.dir == dir
                &&& op.target.path == at.dir_relative
                &&& op.root_path == at.root_relative
            },
        },
{
}

/// A rename is granted exactly where both names may be changed and belong to
/// one mount; it is of the one name to the other. Both paths are looked at
/// before the rights on either directory, and the old name before the new.
pub proof fn law_rename_requests_are_checked(
    fs: FsView,
    old_dir_fd: u32,
    old_path: Seq<char>,
    new_dir_fd: u32,
    new_path: Seq<char>,
)
    ensures
        ({
            let source = fs.change_request(old_dir_fd, old_path);
            let destination = fs.change_request(new_dir_fd, new_path);
            match fs.rename_request(old_dir_fd, old_path, new_dir_fd, new_path) {
                Ok((a, b)) => {
                    &&& source == Ok::<_, FsErrorView>(a)
                    &&& destination == Ok::<_, FsErrorView>(b)
                    &&& a.root_fd == b.root_fd
                },
                Err(e) => if fs.resolved(old_dir_fd, old_path) is Err {
                    e == fs.resolved(old_dir_fd, old_path)->Err_0
                } else if fs.resolved(new_dir_fd, new_path) is Err {
                    e == fs.resolved(new_dir_fd, new_path)->Err_0
                } else if source is Err {
                    e == source->Err_0
                } else if destination is Err {
                    e == destination->Err_0
                } else {
                    e == FsErrorView::CrossDevice && source->Ok_0.root_fd
                        != destination->Ok_0.root_fd
                },
            }
        }),
{
}

/// A rename goes through where the host finds the source, and where a name that
/// can only be a directory's is one. The destination is looked up exactly where
/// its name can only be a directory's.
pub proof fn law_renames_look_before_they_move(
    op: RenameView,
    reply: Result<HostMetadata, HostError>,
)
    requires
        !(op.stage is Move),
    ensures
        ({
            let at_source = op.stage is ProbeSource;
            let wanted = if at_source {
                op.source.target.path.requires_directory
            } else {
                op.destination.target.path.requires_directory
            };
            match (reply, op.probe(reply)) {
                (Err(failure), r) => r == Err::<RenameStage, _>(failure.classify()),
                (Ok(found), Err(e)) => e == FsErrorView::NotDirectory && wanted && !found.is_dir,
                (Ok(found), Ok(stage)) => {
                    &&& wanted ==> found.is_dir
                    &&& stage is ProbeDestination <==> at_source
                        && op.destination.target.path.requires_directory
                    &&& stage is Move <==> !(at_source
                        && op.destination.target.path.requires_directory)
                },
            }
        }),
{
}

/// A name that can only be a directory's is never unlinked: a directory is
/// refused as one, and anything else as none.
pub proof fn law_directories_are_not_unlinked(reply: Result<HostMetadata, HostError>)
    ensures
        match reply {
            Ok(found) => {
                &&& unlink_refusal(reply) == FsErrorView::IsDirectory <==> found.is_dir
                &&& unlink_refusal(reply) == FsErrorView::NotDirectory <==> !found.is_dir
            },
            Err(failure) => unlink_refusal(reply) == failure.classify(),
        },
{
}

/// Exactly what is open and no mount can be closed.
pub proof fn law_what_can_be_closed(fs: FsView, fd: u32)
    ensures
        fs.close(fd) is Ok <==> fs.descriptors.contains_key(fd)
            && !fs.descriptors[fd].is_preopen,
        !fs.descriptors.contains_key(fd) ==> fs.close(fd) == Err::<FsView, _>(
            FsErrorView::BadDescriptor,
        ),
        fs.descriptors.contains_key(fd) && fs.descriptors[fd].is_preopen ==> fs.close(fd)
            == Err::<FsView, _>(FsErrorView::NotPermitted),
        fs.close(fd) matches Ok(after) ==> {
            &&& after.preopens == fs.preopens
            &&& after.next_handle == fs.next_handle
            &&& after.budget == fs.budget
            &&& after.limits == fs.limits
            &&& after.output_fd == fs.output_fd
            &&& forall|other: u32| #[trigger]
                after.descriptors.contains_key(other) ==> fs.descriptors.contains_key(other)
            &&& forall|id: u32| #[trigger]
                after.streams.contains_key(id) ==> fs.streams.contains_key(id)
                    && after.streams[id] == fs.streams[id]
            &&& forall|id: u32| #[trigger]
                after.dir_streams.contains_key(id) ==> fs.dir_streams.contains_key(id)
                    && after.dir_streams[id] == fs.dir_streams[id]
        },
{
}

/// A removal or a rename takes away descriptors and the streams on them, and
/// nothing else: whatever stays open is as it was, and so are the mounts, the
/// counters and the handles.
pub proof fn law_changed_names_leave_the_rest(
    fs: FsView,
    source: ChangeView,
    destination: ChangeView,
)
    requires
        fs.wf(),
    ensures
        ({
            let after = fs.name_moved(source, destination);
            &&& after == FsView {
                descriptors: after.descriptors,
                streams: after.streams,
                dir_streams: after.dir_streams,
                ..fs
            }
            &&& forall|fd: u32| #[trigger]
                after.descriptors.contains_key(fd) ==> fs.descriptors.contains_key(fd)
                    && after.descriptors[fd] == fs.descriptors[fd]
            &&& forall|id: u32| #[trigger]
                fs.streams.contains_key(id) ==> (after.streams.contains_key(id)
                    <==> after.descriptors.contains_key(fs.streams[id].file_fd))
            &&& forall|id: u32| #[trigger]
                fs.dir_streams.contains_key(id) ==> (after.dir_streams.contains_key(id)
                    <==> after.descriptors.contains_key(fs.dir_streams[id].dir_fd))
            &&& forall|id: u32| #[trigger]
                after.streams.contains_key(id) ==> fs.streams.contains_key(id)
                    && after.streams[id] == fs.streams[id]
            &&& forall|id: u32| #[trigger]
                after.dir_streams.contains_key(id) ==> fs.dir_streams.contains_key(id)
                    && after.dir_streams[id] == fs.dir_streams[id]
        }),
{
    let after = fs.name_moved(source, destination);
    let gone = fs.subtree(source.root_fd, source.root_path).union(
        fs.subtree(destination.root_fd, destination.root_path),
    );
    assert forall|id: u32| #[trigger] fs.streams.contains_key(id) implies (
    after.streams.contains_key(id) <==> after.descriptors.contains_key(
        fs.streams[id].file_fd,
    )) by {
        assert(fs.stream_ok(id));
        assert(fs.streams_on(gone).contains(id) <==> gone.contains(fs.streams[id].file_fd));
    }
    assert forall|id: u32| #[trigger] fs.dir_streams.contains_key(id) implies (
    after.dir_streams.contains_key(id) <==> after.descriptors.contains_key(
        fs.dir_streams[id].dir_fd,
    )) by {
        assert(fs.dir_stream_ok(id));
        assert(fs.dir_streams_on(gone).contains(id) <==> gone.contains(fs.dir_streams[id].dir_fd));
    }
}

/// A directory is listed exactly where it is open and may be read, while there
/// is room for another stream.
pub proof fn law_list_requests_are_checked(fs: FsView, dir_fd: u32)
    requires
        fs.wf(),
    ensures
        ({
            let dir = fs.descriptors[dir_fd].directory;
            let full = fs.streams.len() + fs.dir_streams.len() >= fs.limits.max_open_streams;
            match fs.list_request(dir_fd) {
                Ok(listing) => {
                    &&& fs.is_directory(dir_fd)
                    &&& dir->0.grants().reads()
                    &&& !full
                    &&& listing.dir_fd == dir_fd
                    &&& dir == Some(listing.dir)
                    &&& listing.entries.len() == 0
                },
                Err(e) => if !fs.is_directory(dir_fd) {
                    e == FsErrorView::BadDescriptor
                } else if !dir->0.grants().reads() {
                    e == FsErrorView::NotPermitted
                } else {
                    full && e == FsErrorView::Quota
                },
            }
        }),
{
    if fs.descriptors.contains_key(dir_fd) {
        assert(fs.descriptor_ok(dir_fd));
    }
}

/// An entry is listed under the name and the kind that the host reported, and
/// is charged as one entry. One too many is refused, for the listing or for
/// the run.
pub proof fn law_entries_are_listed_as_found(
    fs: FsView,
    listing: ListingView,
    reply: Result<HostEntry, HostError>,
)
    ensures
        ({
            let count = fs.budget.directory_entries + 1;
            let full = listing.entries.len() >= fs.limits.max_directory_entries_per_listing
                || count > fs.limits.max_directory_entries_per_run;
            let (after, r) = fs.list_entry(listing, reply);
            match reply {
                Err(failure) => after == fs && r == Err::<(Seq<char>, bool), _>(
                    failure.classify(),
                ),
                Ok(entry) => if full {
                    after == fs && r == Err::<(Seq<char>, bool), _>(FsErrorView::Quota)
                } else {
                    &&& after == FsView {
                        budget: RunBudget { directory_entries: count as u64, ..fs.budget },
                        ..fs
                    }
                    &&& match entry.is_dir {
                        Ok(is_dir) => r == Ok::<_, FsErrorView>((entry.name@, is_dir)),
                        Err(failure) => r == Err::<(Seq<char>, bool), _>(failure.classify()),
                    }
                },
            }
        }),
{
}

/// A listed directory becomes a stream under the next handle that stands before
/// its first entry.
pub proof fn law_listings_become_streams(fs: FsView, listing: ListingView)
    ensures
        ({
            let (after, r) = fs.list_finish(listing);
            let id = fs.next_handle;
            if id == u32::MAX {
                r is Err && r->Err_0 is Io && after == fs
            } else {
                &&& r == Ok::<u32, FsErrorView>(id)
                &&& after == FsView {
                    dir_streams: fs.dir_streams.insert(
                        id,
                        DirStreamView {
                            dir_fd: listing.dir_fd,
                            entries: listing.entries,
                            cursor: 0,
                        },
                    ),
                    next_handle: (id + 1) as u32,
                    ..fs
                }
            }
        }),
{
}

/// Taking an entry of a directory stream hands out the one that the stream
/// stands before, and moves on by one; at the end it hands out none, and where
/// there is no such stream, nothing. Nothing else changes.
pub proof fn law_directory_streams_move_one_by_one(fs: FsView, id: u32)
    ensures
        ({
            let stream = fs.dir_streams[id];
            let (after, r) = fs.next_entry(id);
            if !fs.dir_streams.contains_key(id) {
                r is None && after == fs
            } else if stream.cursor >= stream.entries.len() {
                r == Some(None::<(Seq<char>, bool)>) && after == fs
            } else {
                &&& r == Some(Some(stream.entries[stream.cursor as int]))
                &&& after.dir_streams[id].entries == stream.entries
                &&& after.dir_streams[id].dir_fd == stream.dir_fd
                &&& after.dir_streams[id].cursor == stream.cursor + 1
                &&& after == FsView {
                    dir_streams: fs.dir_streams.insert(id, after.dir_streams[id]),
                    ..fs
                }
            }
        }),
{
}

/// The mount that a guest sees at a path is one that is mounted there, and the
/// first of them; there is none exactly where nothing is mounted there.
pub proof fn law_mounts_are_found_by_their_path(fs: FsView, guest_path: Seq<char>)
    requires
        fs.wf(),
    ensures
        match fs.mount_at(guest_path) {
            Some(fd) => {
                &&& fs.preopens.contains_key(fd)
                &&& fs.preopens[fd].guest_path == guest_path
                &&& forall|other: u32| #[trigger]
                    fs.preopens.contains_key(other) && other < fd
                        ==> fs.preopens[other].guest_path != guest_path
            },
            None => forall|fd: u32| #[trigger]
                fs.preopens.contains_key(fd) ==> fs.preopens[fd].guest_path != guest_path,
        },
{
    if let Some(fd) = fs.mount_at(guest_path) {
        assert(fs.is_first_mount(guest_path, fd));
    } else {
        assert forall|fd: u32| #[trigger] fs.preopens.contains_key(fd) implies fs.preopens[fd].guest_path
            != guest_path by {
            if fs.preopens[fd].guest_path == guest_path {
                lemma_some_mount_is_first(fs, guest_path, fd);
            }
        }
    }
}

proof fn lemma_some_mount_is_first(fs: FsView, guest_path: Seq<char>, fd: u32)
    requires
        fs.preopens.contains_key(fd),
        fs.preopens[fd].guest_path == guest_path,
    ensures
        exists|first: u32| fs.is_first_mount(guest_path, first),
    decreases fd,
{
    if !fs.is_first_mount(guest_path, fd) {
        let other = choose|other: u32| #[trigger]
            fs.preopens.contains_key(other) && fs.preopens[other].guest_path == guest_path && other
                < fd;
        lemma_some_mount_is_first(fs, guest_path, other);
    }
}

/// A path below a root is one that begins with a slash, the root and another
/// slash; what follows is what it names there.
pub proof fn law_rooted_paths(root: Seq<char>, rest: Seq<char>, path: Seq<char>)
    ensures
        match (parsed(rest), rooted("/"@ + root + "/"@ + rest, root)) {
            (Some(asked), r) => r == Ok::<_, OutputPathError>(asked),
            (None, r) => r == Err::<PathView, _>(OutputPathError::InvalidPath),
        },
        rooted(path, root) == Err::<PathView, _>(OutputPathError::NotRooted) <==> !exists|
            tail: Seq<char>,
        | path == "/"@ + root + "/"@ + tail,
{
    let prefix = "/"@ + root + "/"@;
    let whole = prefix + rest;
    assert("/"@ + root + "/"@ + rest =~= whole);
    assert(whole.take(prefix.len() as int) =~= prefix);
    assert(whole.skip(prefix.len() as int) =~= rest);
    if begins_with(path, prefix) {
        let tail = path.skip(prefix.len() as int);
        assert(path =~= prefix + tail);
        assert(path == "/"@ + root + "/"@ + tail);
    }
    if exists|tail: Seq<char>| path == "/"@ + root + "/"@ + tail {
        let tail = choose|tail: Seq<char>| path == "/"@ + root + "/"@ + tail;
        assert(path.take(prefix.len() as int) =~= prefix);
    }
}

/// What the host may read by a guest path: the path below the first component
/// of what is mounted there, where it names a file, and both the directory and
/// its files may be read. Of what speaks against it the first is reported.
pub proof fn law_guest_files_are_checked(fs: FsView, root: Seq<char>, rest: Seq<char>)
    requires
        !root.contains('/'),
    ensures
        ({
            let path = "/"@ + root + "/"@ + rest;
            let mount = fs.mount_at("/"@ + root);
            let dir = fs.preopens[mount->0].dir;
            match (parsed(rest), fs.guest_file_request(path)) {
                (None, r) => r == Err::<TargetView, _>(GuestFileError::InvalidPath),
                (Some(file), Ok(target)) => {
                    &&& !file.requires_directory
                    &&& mount is Some
                    &&& dir.grants().reads()
                    &&& dir.file_grants().reads()
                    &&& target.dir == dir
                    &&& target.path == file
                },
                (Some(file), Err(e)) => if file.requires_directory {
                    e == GuestFileError::NamesDirectory
                } else if mount is None {
                    e == GuestFileError::NoPreopen
                } else if !dir.grants().reads() {
                    e == GuestFileError::DirectoryDenied
                } else {
                    e == GuestFileError::FilesDenied && !dir.file_grants().reads()
                },
            }
        }),
{
    let path = "/"@ + root + "/"@ + rest;
    reveal_strlit("/");
    assert(path.take(1) =~= "/"@);
    let below = path.skip(1);
    assert(below =~= root + seq!['/'] + rest);
    lemma_span_until(root, '/', rest);
    assert(below.take(root.len() as int) =~= root);
    assert(below.skip(root.len() as int + 1) =~= rest);
}

/// A guest path that does not begin with a slash, or that names nothing below
/// its first component, is not one that the host reads.
pub proof fn law_other_guest_paths_are_refused(fs: FsView, name: Seq<char>)
    requires
        !name.contains('/'),
    ensures
        fs.guest_file_request(name) == Err::<TargetView, _>(GuestFileError::NotAbsolute),
        fs.guest_file_request("/"@ + name) == Err::<TargetView, _>(GuestFileError::NoFileName),
{
    reveal_strlit("/");
    if name.len() > 0 {
        assert(name.take(1)[0] == name[0]);
        assert(name.contains(name[0]));
    }
    let path = "/"@ + name;
    assert(path.take(1) =~= "/"@);
    assert(path.skip(1) =~= name);
    lemma_no_span(name, '/');
}

proof fn lemma_no_span(s: Seq<char>, c: char)
    requires
        !s.contains(c),
    ensures
        span_until(s, c) == s.len(),
    decreases s.len(),
{
    if s.len() > 0 {
        assert(s[0] != c);
        let rest = s.skip(1);
        if rest.contains(c) {
            let i = choose|i: int| 0 <= i < rest.len() && rest[i] == c;
            assert(s[i + 1] == c);
        }
        lemma_no_span(rest, c);
    }
}

/// A file that the host opened is read whole, where it is no larger than one
/// read may be and the budget covers it; it is charged as a whole.
pub proof fn law_guest_files_are_read_whole(fs: FsView, size: u64)
    ensures
        fs.guest_file_size(GuestFileReply::NotOpened) == (
            fs,
            Err::<u64, _>(GuestFileError::NotFound),
        ),
        fs.guest_file_size(GuestFileReply::NotSized) == (
            fs,
            Err::<u64, _>(GuestFileError::StatFailed),
        ),
        ({
            let single = fs.limits.max_single_read_bytes;
            let used = fs.budget.bytes_read + size;
            match fs.guest_file_size(GuestFileReply::Size(size)) {
                (after, Ok(amount)) => {
                    &&& amount == size
                    &&& size <= single
                    &&& size <= usize::MAX
                    &&& used <= fs.limits.max_read_bytes_per_run
                    &&& after == FsView {
                        budget: RunBudget { bytes_read: used as u64, ..fs.budget },
                        ..fs
                    }
                },
                (after, Err(e)) => {
                    &&& after == fs
                    &&& if size > single || size > usize::MAX {
                        e matches GuestFileError::TooLarge { size: told, limit } && told == size
                            && limit <= single && limit <= usize::MAX && (limit == single || limit
                            == usize::MAX)
                    } else {
                        e == GuestFileError::QuotaExceeded && used
                            > fs.limits.max_read_bytes_per_run
                    }
                },
            }
        }),
{
}

/// What the host may write below `/output`: a path that names a file there,
/// where an output directory is mounted and may be changed, and its files
/// written. Of what speaks against it the first is reported.
pub proof fn law_output_paths_are_checked(fs: FsView, path: Seq<char>)
    ensures
        ({
            let dir = fs.preopens[fs.output_fd->0].dir;
            match (rooted(path, "output"@), fs.output_request(path)) {
                (Err(e), r) => r == Err::<TargetView, _>(e),
                (Ok(file), Ok(target)) => {
                    &&& !file.requires_directory
                    &&& fs.output_fd is Some
                    &&& dir.grants().mutates()
                    &&& dir.file_grants().writes()
                    &&& target.dir == dir
                    &&& target.path == file
                },
                (Ok(file), Err(e)) => if file.requires_directory {
                    e == OutputPathError::NamesDirectory
                } else if fs.output_fd is None {
                    e == OutputPathError::NoOutput
                } else if !dir.grants().mutates() {
                    e == OutputPathError::DirectoryDenied
                } else {
                    e == OutputPathError::FilesDenied && !dir.file_grants().writes()
                },
            }
        }),
{
}

/// Writing a file below `/output` is charged by its length, and by one creation
/// where the file is missing; it goes through exactly where the budgets cover
/// it and the host could look the path up.
pub proof fn law_output_is_charged(fs: FsView, reply: Result<HostMetadata, HostError>, len: u64)
    ensures
        ({
            let missing = reply is Err;
            let created = fs.budget.creations + 1;
            let written = fs.budget.bytes_written + len;
            let counted = if missing {
                FsView { budget: RunBudget { creations: created as u64, ..fs.budget }, ..fs }
            } else {
                fs
            };
            match fs.output_charged(reply, len) {
                (after, Ok(_)) => {
                    &&& reply matches Err(e) ==> e.kind is NotFound
                    &&& missing ==> created <= fs.limits.max_creations_per_run
                    &&& written <= fs.limits.max_written_bytes_per_run
                    &&& after == FsView {
                        budget: RunBudget { bytes_written: written as u64, ..counted.budget },
                        ..counted
                    }
                },
                (after, Err(e)) => if missing && !(reply->Err_0.kind is NotFound) {
                    e == OutputPathError::StatFailed && after == fs
                } else if missing && created > fs.limits.max_creations_per_run {
                    e == OutputPathError::CreationQuota && after == fs
                } else {
                    &&& e == OutputPathError::WriteQuota
                    &&& after == counted
                    &&& written > fs.limits.max_written_bytes_per_run
                },
            }
        }),
{
}

/// The listing of the output directory names every regular file that was
/// found, in order, and nothing else: one more entry adds its name exactly
/// where it is a regular file.
pub proof fn law_output_listing_names_the_files(
    entries: Seq<(Seq<char>, Option<bool>)>,
    name: Seq<char>,
    is_file: Option<bool>,
)
    ensures
        file_names(Seq::<(Seq<char>, Option<bool>)>::empty()).len() == 0,
        file_names(entries.push((name, is_file))) == if is_file is Some && is_file->0 {
            file_names(entries).push(name)
        } else {
            file_names(entries)
        },
        forall|n: Seq<char>| #[trigger]
            file_names(entries).contains(n) <==> exists|i: int|
                0 <= i < entries.len() && #[trigger] entries[i] == (n, Some(true)),
    decreases entries.len(),
{
    assert(entries.push((name, is_file)).drop_last() =~= entries);
    if entries.len() > 0 {
        let before = entries.drop_last();
        law_output_listing_names_the_files(before, name, is_file);
        let last = entries.last();
        assert forall|n: Seq<char>| #[trigger]
            file_names(entries).contains(n) <==> exists|i: int|
                0 <= i < entries.len() && #[trigger] entries[i] == (n, Some(true)) by {
            if file_names(entries).contains(n) {
                let k = choose|k: int|
                    0 <= k < file_names(entries).len() && file_names(entries)[k] == n;
                if last.1 == Some(true) && k == file_names(before).len() {
                    assert(entries[entries.len() - 1] == (n, Some(true)));
                } else {
                    assert(file_names(before)[k] == n);
                    assert(file_names(before).contains(n));
                    let i = choose|i: int|
                        0 <= i < before.len() && #[trigger] before[i] == (n, Some(true));
                    assert(entries[i] == (n, Some(true)));
                }
            }
            if exists|i: int| 0 <= i < entries.len() && #[trigger] entries[i] == (n, Some(true)) {
                let i = choose|i: int|
                    0 <= i < entries.len() && #[trigger] entries[i] == (n, Some(true));
                if i < before.len() {
                    assert(before[i] == (n, Some(true)));
                    assert(file_names(before).contains(n));
                    let k = choose|k: int|
                        0 <= k < file_names(before).len() && file_names(before)[k] == n;
                    assert(file_names(entries)[k] == n);
                    assert(file_names(entries).contains(n));
                } else {
                    assert(last == (n, Some(true)));
                    assert(file_names(entries)[file_names(before).len() as int] == n);
                }
            }
        }
    } else {
        assert(entries =~= Seq::<(Seq<char>, Option<bool>)>::empty());
    }
}

/// A file is found in a directory by the name at the end of its path, where it
/// was opened through that directory.
pub proof fn law_files_are_found_by_their_name(fs: FsView, dir_fd: u32, name: Seq<char>, fd: u32)
    requires
        fs.wf(),
    ensures
        fs.is_file_in_dir(dir_fd, name, fd) <==> {
            let entry = fs.descriptors[fd];
            &&& fs.is_file(fd)
            &&& entry.parent_fd == Some(dir_fd)
            &&& entry.path.components[entry.path.components.len() - 1] == name
        },
{
    if fs.descriptors.contains_key(fd) {
        assert(fs.descriptor_ok(fd));
    }
}

/// Exactly the mounts that do not keep their contents are cleared, in
/// ascending order and each once; any other is refused, or is no mount.
pub proof fn law_what_is_cleared(fs: FsView, fd: u32, mounts: Seq<u32>)
    ensures
        fs.ephemeral().contains(fd) <==> fs.preopens.contains_key(fd)
            && fs.preopens[fd].lifetime == MountLifetime::ClearBeforeRun,
        fs.clear_refusal(fd) is None <==> fs.preopens.contains_key(fd)
            && fs.preopens[fd].lifetime == MountLifetime::ClearBeforeRun,
        !fs.preopens.contains_key(fd) ==> fs.clear_refusal(fd) == Some(FsErrorView::BadDescriptor),
        fs.preopens.contains_key(fd) && fs.preopens[fd].lifetime == MountLifetime::Persistent
            ==> fs.clear_refusal(fd) == Some(FsErrorView::NotPermitted),
        fs.is_sweep_order(mounts) ==> {
            &&& mounts.contains(fd) <==> fs.preopens.contains_key(fd) && fs.preopens[fd].lifetime
                == MountLifetime::ClearBeforeRun
            &&& forall|i: int, j: int| 0 <= i < j < mounts.len() ==> mounts[i] < mounts[j]
        },
{
    if fs.is_sweep_order(mounts) {
        assert(mounts.to_set().contains(fd) <==> mounts.contains(fd));
    }
}

/// A sweep goes on mount by mount until one fails, and then stops; it succeeds
/// exactly where none failed.
pub proof fn law_sweeps_stop_at_the_first_failure(
    sweep: SweepView,
    failure: Option<FsErrorView>,
)
    ensures
        sweep.after(failure).mounts == sweep.mounts,
        sweep.after(failure).next == sweep.next + 1,
        sweep.after(failure).failure == failure,
        sweep.ended() <==> sweep.failure is Some || sweep.next >= sweep.mounts.len(),
        sweep.result() is Ok <==> sweep.failure is None,
        sweep.failure matches Some(e) ==> sweep.result() == Err::<(), _>(e),
{
}

/// Clearing a mount leaves the limits, the counters, the mounts and where
/// output and temporary files go as they were; a stream goes exactly with the
/// descriptor behind it.
pub proof fn law_clearing_leaves_the_rest(fs: FsView, mount_fd: u32)
    requires
        fs.wf(),
    ensures
        ({
            let after = fs.mount_cleared(mount_fd);
            &&& after == FsView {
                descriptors: after.descriptors,
                streams: after.streams,
                dir_streams: after.dir_streams,
                next_handle: after.next_handle,
                ..fs
            }
            &&& forall|fd: u32| #[trigger]
                after.descriptors.contains_key(fd) ==> fs.descriptors.contains_key(fd)
            &&& forall|id: u32| #[trigger]
                fs.streams.contains_key(id) ==> (after.streams.contains_key(id)
                    <==> after.descriptors.contains_key(fs.streams[id].file_fd))
            &&& forall|id: u32| #[trigger]
                fs.dir_streams.contains_key(id) ==> (after.dir_streams.contains_key(id)
                    <==> after.descriptors.contains_key(fs.dir_streams[id].dir_fd))
            &&& forall|id: u32| #[trigger]
                after.streams.contains_key(id) ==> fs.streams.contains_key(id)
                    && after.streams[id] == fs.streams[id]
            &&& forall|id: u32| #[trigger]
                after.dir_streams.contains_key(id) ==> fs.dir_streams.contains_key(id)
                    && after.dir_streams[id] == fs.dir_streams[id]
        }),
{
    let after = fs.mount_cleared(mount_fd);
    let gone = fs.opened_below(mount_fd);
    assert forall|id: u32| #[trigger] fs.streams.contains_key(id) implies (
    after.streams.contains_key(id) <==> after.descriptors.contains_key(
        fs.streams[id].file_fd,
    )) by {
        assert(fs.stream_ok(id));
        assert(fs.streams_on(gone).contains(id) <==> gone.contains(fs.streams[id].file_fd));
    }
    assert forall|id: u32| #[trigger] fs.dir_streams.contains_key(id) implies (
    after.dir_streams.contains_key(id) <==> after.descriptors.contains_key(
        fs.dir_streams[id].dir_fd,
    )) by {
        assert(fs.dir_stream_ok(id));
        assert(fs.dir_streams_on(gone).contains(id) <==> gone.contains(fs.dir_streams[id].dir_fd));
    }
}

/// A directory is mounted exactly where it lies apart from what is mounted with
/// another lifetime, and there is room. It takes the next handle, as a
/// directory of its own that is the root of its mount, and nothing else
/// changes.
pub proof fn law_mounting_enters_the_directory(fs: FsView, preopen: PreopenView)
    ensures
        ({
            let fd = fs.next_handle;
            let overlaps = preopen.host_root is Some && exists|other: u32| #[trigger]
                fs.preopens.contains_key(other) && fs.preopens[other].lifetime != preopen.lifetime
                    && fs.preopens[other].host_root is Some && roots_overlap(
                    fs.preopens[other].host_root->0,
                    preopen.host_root->0,
                );
            let full = fs.descriptors.len() >= fs.limits.max_open_descriptors;
            match fs.mounting(preopen) {
                Ok(after) => {
                    let entry = after.descriptors[fd];
                    &&& !overlaps
                    &&& !full
                    &&& fd < u32::MAX
                    &&& entry.root_fd == fd
                    &&& entry.path.components.len() == 0
                    &&& entry.path.requires_directory
                    &&& entry.descriptor_type == DescriptorType::Directory
                    &&& entry.is_preopen
                    &&& entry.parent_fd is None
                    &&& entry.directory == Some(preopen.dir)
                    &&& after == FsView {
                        preopens: fs.preopens.insert(fd, preopen),
                        descriptors: fs.descriptors.insert(fd, entry),
                        next_handle: (fd + 1) as u32,
                        ..fs
                    }
                },
                Err(MountError::Overlap) => overlaps,
                Err(MountError::Fs(e)) => !overlaps && if full {
                    e == FsErrorView::Quota
                } else {
                    fd == u32::MAX && e is Io
                },
            }
        }),
{
}

/// Two host directories overlap exactly where one of their paths begins with
/// the other.
pub proof fn law_overlap_is_containment(a: Seq<Seq<char>>, b: Seq<Seq<char>>, below: Seq<Seq<char>>)
    ensures
        roots_overlap(a, a + below),
        roots_overlap(a + below, a),
        roots_overlap(a, b) == roots_overlap(b, a),
        roots_overlap(a, b) ==> (exists|rest: Seq<Seq<char>>| b == a + rest) || (
        exists|rest: Seq<Seq<char>>| a == b + rest),
{
    assert((a + below).take(a.len() as int) =~= a);
    if a.len() <= b.len() && b.take(a.len() as int) == a {
        assert(b =~= a + b.skip(a.len() as int));
    }
    if b.len() <= a.len() && a.take(b.len() as int) == b {
        assert(a =~= b + a.skip(b.len() as int));
    }
}

/// Nothing is mounted and nothing is open at the start, under the limits that
/// apply where none are chosen.
pub proof fn law_a_new_filesystem_is_empty()
    ensures
        FsView::empty().preopens == Map::<u32, PreopenView>::empty(),
        FsView::empty().descriptors.dom() == Set::<u32>::empty(),
        FsView::empty().streams.dom() == Set::<u32>::empty(),
        FsView::empty().dir_streams.dom() == Set::<u32>::empty(),
        FsView::empty().next_handle == 3,
        FsView::empty().output_fd is None,
        FsView::empty().output_path is None,
        FsView::empty().temp_path is None,
        FsView::empty().budget == RunBudget::unused(),
        FsView::empty().limits.max_open_descriptors == 1024,
        FsView::empty().limits.max_open_streams == 1024,
        FsView::empty().limits.max_single_read_bytes == 16 * 1024 * 1024,
        FsView::empty().limits.max_read_bytes_per_run == 256 * 1024 * 1024,
        FsView::empty().limits.max_written_bytes_per_run == 64 * 1024 * 1024,
        FsView::empty().limits.max_creations_per_run == 10_000,
        FsView::empty().limits.max_directory_entries_per_listing == 10_000,
        FsView::empty().limits.max_directory_entries_per_run == 100_000,
        FsView::empty().limits.max_cleanup_entries == 100_000,
        FsView::empty().limits.max_recursive_depth == 64,
{
}

/// Handle numbers continue right above the highest one in use once a mount was
/// cleared, or at the first where none is in use.
pub proof fn law_handles_continue_above_those_in_use(fs: FsView, mount_fd: u32)
    requires
        fs.wf(),
    ensures
        ({
            let after = fs.mount_cleared(mount_fd);
            let next = after.next_handle;
            let used = |h: u32|
                after.descriptors.contains_key(h) || after.streams.contains_key(h)
                    || after.dir_streams.contains_key(h);
            &&& forall|h: u32| #[trigger] used(h) ==> h < next
            &&& (exists|h: u32| #[trigger] used(h)) ==> next > 0 && used((next - 1) as u32)
            &&& !(exists|h: u32| #[trigger] used(h)) ==> next == 3
        }),
{
    law_handles_are_fresh_after_clearing(fs, mount_fd);
    let after = fs.mount_cleared(mount_fd);
    let used = |h: u32|
        after.descriptors.contains_key(h) || after.streams.contains_key(h)
            || after.dir_streams.contains_key(h);
    assert forall|h: u32| #[trigger] used(h) == after.live().contains(h) by {}
    assert forall|h: u32| #[trigger] used(h) implies h < after.next_handle by {
        assert(after.live().contains(h));
    }
    if exists|h: u32| #[trigger] used(h) {
        let h = choose|h: u32| #[trigger] used(h);
        assert(after.live().contains(h));
        assert(after.live().contains((after.next_handle - 1) as u32));
        assert(used((after.next_handle - 1) as u32));
    } else {
        assert forall|h: u32| !#[trigger] after.live().contains(h) by {
            assert(!used(h));
        }
    }
}

/// The numbers in use are those of the descriptors, of the file streams and of
/// the directory streams.
pub proof fn law_what_is_in_use(fs: FsView, h: u32)
    ensures
        fs.live().contains(h) <==> fs.descriptors.contains_key(h) || fs.streams.contains_key(h)
            || fs.dir_streams.contains_key(h),
{
}

/// What is mounted for the host is the directory that it handed over, with
/// exactly the rights, the path and the lifetime that were chosen.
pub proof fn law_host_directories_are_mounted(
    host: HostDir,
    perms: DirPerms,
    file_perms: FilePerms,
    guest_path: Seq<char>,
    lifetime: MountLifetime,
)
    ensures
        ({
            let mount = host_mount(host, perms, file_perms, guest_path, lifetime);
            &&& mount.dir.host() == host.dir
            &&& mount.dir.grants() == perms
            &&& mount.dir.file_grants() == file_perms
            &&& mount.guest_path == guest_path
            &&& mount.lifetime == lifetime
            &&& mount.host_root == Some(texts(host.root@))
        }),
{
    Dir::lemma_wrapping(host.dir, perms, file_perms);
}

/// A read that the host did hands out what was read, and says that the end was
/// reached exactly where nothing of the file is left after it; a write reports
/// as many bytes as were to be written.
pub proof fn law_host_replies_are_handed_on(
    plan: ReadPlan,
    reply: Result<Vec<u8>, HostError>,
    read: Result<(Vec<u8>, bool), FsError>,
    writing: WritePlan,
    done: Result<(), HostError>,
    wrote: Result<u64, FsError>,
)
    requires
        call_ensures(ReadPlan::read, (plan, reply), read),
        call_ensures(WritePlan::written, (writing, done), wrote),
    ensures
        match (reply, read) {
            (Ok(data), Ok((got, eof))) => got == data && (eof <==> plan.start + data@.len()
                >= plan.file_size),
            (Err(failure), Err(e)) => e@ == failure.classify(),
            _ => false,
        },
        match (done, wrote) {
            (Ok(_), Ok(n)) => n == writing.len,
            (Err(failure), Err(e)) => e@ == failure.classify(),
            _ => false,
        },
{
}

/// What is reported of an open file is a regular file of the length that the
/// host found; a file that the host cannot find is no longer open.
pub proof fn law_open_files_are_reported(
    reply: Result<HostMetadata, HostError>,
    size: Option<u64>,
    stat: Result<DescriptorStat, FsError>,
)
    requires
        call_ensures(file_size_replied, (reply,), size),
        call_ensures(stat_replied, (reply,), stat),
    ensures
        match reply {
            Ok(found) => {
                &&& size == Some(found.len)
                &&& stat matches Ok(s) && s.size == found.len && s.descriptor_type
                    == DescriptorType::RegularFile
            },
            Err(_) => size is None && (stat matches Err(e) && e is BadDescriptor),
        },
{
}

} // verus!
