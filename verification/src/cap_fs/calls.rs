//! What calls yield.
//!
//! The laws speak of the calls themselves: of what goes into a call, what it
//! returns, and what it leaves behind.
use cap_std::fs::Dir as CapDir;
use std::path::PathBuf;
use vstd::prelude::*;

use super::files::{ReadStep, WritePlan};
use super::listing::{HostEntry, Listing};
use super::mounts::HostDir;
use super::namespace::{unlink_refused, Removal, Rename, RenameStage, Unlink};
use super::open::{ConfirmedOpen, PendingOpen, ProbedOpen};
use super::outcomes::{law_guest_files_are_checked, law_mounts_are_found_by_their_path};
use super::outcomes::{law_open_requests_are_checked, law_output_paths_are_checked};
use super::outcomes::law_stat_requests_are_checked;
use super::output::{file_names, GuestFileReply, OutputListing, MAX_OUTPUT_FILE_COUNT};
use super::stat::{PendingStat, StatQuery};
use super::streams::{StreamPlan, StreamRequest, StreamWrite};
use super::sweep::Sweep;
use super::{CapFs, Cleanup, ReadRequest, Target, WriteRequest};
use crate::error::{FsError, GuestFileError, HostError, OutputPathError};
use crate::guest_path::{law_lying_within, parsed};
use crate::limits::{FilesystemLimits, RunBudget};
use crate::model::{FsView, StreamState};
use crate::perms::{DescriptorFlags, DescriptorStat, DescriptorType, Dir, DirPerms, FilePerms};
use crate::perms::{HostMetadata, MountLifetime, OpenFlags, PathFlags, WorkDirAccess};
use crate::text::{join, texts};

verus! {

/// Opening a file that is there has the host create or cut it exactly where
/// truncation was asked for, whatever else was; and it charges nothing.
pub proof fn law_existing_files_are_cut_where_asked(
    fs: CapFs,
    dir_fd: u32,
    path: &str,
    path_flags: PathFlags,
    flags: OpenFlags,
    op: PendingOpen,
    later: &mut CapFs,
    found: HostMetadata,
    probed: ProbedOpen,
    due: bool,
)
    requires
        call_ensures(
            CapFs::open_at_with_path_flags,
            (&fs, dir_fd, path, path_flags, flags),
            Ok(op),
        ),
        call_ensures(CapFs::open_probed, (later, op, Ok(found)), Ok(probed)),
        call_ensures(ProbedOpen::must_create, (&probed,), due),
    ensures
        due <==> flags.truncates(),
        final(later)@ == old(later)@,
{
}

/// Opening a file that is missing has the host create it, where that was asked
/// for, and charges one creation and nothing else; otherwise it fails.
pub proof fn law_missing_files_are_created_where_asked(
    fs: CapFs,
    dir_fd: u32,
    path: &str,
    path_flags: PathFlags,
    flags: OpenFlags,
    op: PendingOpen,
    later: &mut CapFs,
    missing: HostError,
    r: Result<ProbedOpen, FsError>,
    probed: ProbedOpen,
    due: bool,
)
    requires
        missing.kind is NotFound,
        call_ensures(
            CapFs::open_at_with_path_flags,
            (&fs, dir_fd, path, path_flags, flags),
            Ok(op),
        ),
        call_ensures(CapFs::open_probed, (later, op, Err(missing)), r),
        call_ensures(ProbedOpen::must_create, (&probed,), due),
    ensures
        r is Ok <==> {
            &&& flags.creates()
            &&& !flags.wants_directory()
            &&& !parsed(path@)->0.requires_directory
            &&& old(later)@.descriptors.len() < old(later)@.limits.max_open_descriptors
            &&& old(later)@.budget.creations < old(later)@.limits.max_creations_per_run
        },
        r is Ok ==> {
            let before = old(later)@;
            &&& r == Ok::<_, FsError>(probed) ==> due
            &&& final(later)@ == FsView {
                budget: RunBudget {
                    creations: (before.budget.creations + 1) as u64,
                    ..before.budget
                },
                ..before
            }
        },
        r is Err ==> final(later)@ == old(later)@,
        r matches Err(e) ==> (!flags.creates() ==> e is NoEntry),
{
}

/// What is there is opened exactly where nothing speaks against it: no symbolic
/// link that is not to be followed, a directory where one is wanted and none
/// where it is to be cut, and room in the table.
pub proof fn law_existing_paths_are_opened(
    fs: CapFs,
    dir_fd: u32,
    path: &str,
    path_flags: PathFlags,
    flags: OpenFlags,
    op: PendingOpen,
    later: &mut CapFs,
    found: HostMetadata,
    r: Result<ProbedOpen, FsError>,
)
    requires
        call_ensures(
            CapFs::open_at_with_path_flags,
            (&fs, dir_fd, path, path_flags, flags),
            Ok(op),
        ),
        call_ensures(CapFs::open_probed, (later, op, Ok(found)), r),
    ensures
        ({
            let looped = found.is_symlink && !path_flags.follows();
            let wanted = flags.wants_directory() || parsed(path@)->0.requires_directory;
            &&& r is Ok <==> {
                &&& !looped
                &&& wanted ==> found.is_dir
                &&& !(flags.truncates() && found.is_dir)
                &&& old(later)@.descriptors.len() < old(later)@.limits.max_open_descriptors
            }
            &&& r matches Err(e) ==> if looped {
                e is SymlinkLoop
            } else if wanted && !found.is_dir {
                e is NoEntry
            } else if flags.truncates() && found.is_dir {
                e is InvalidPath
            } else {
                e is Quota
            }
            &&& final(later)@ == old(later)@
        }),
{
}

/// From the request to the descriptor: what was opened belongs to the mount of
/// the directory it was opened through, lies at the path of that directory
/// followed by what was asked for, is a directory exactly where the host found
/// one, and has the next handle.
pub proof fn law_what_was_opened(
    fs: CapFs,
    dir_fd: u32,
    path: &str,
    path_flags: PathFlags,
    flags: OpenFlags,
    op: PendingOpen,
    probing: &mut CapFs,
    reply: Result<HostMetadata, HostError>,
    probed: ProbedOpen,
    found: HostMetadata,
    confirmed: ConfirmedOpen,
    is_directory: bool,
    entering: &mut CapFs,
    opened: Option<CapDir>,
    r: Result<u32, FsError>,
)
    requires
        call_ensures(
            CapFs::open_at_with_path_flags,
            (&fs, dir_fd, path, path_flags, flags),
            Ok(op),
        ),
        call_ensures(CapFs::open_probed, (probing, op, reply), Ok(probed)),
        call_ensures(ProbedOpen::confirmed, (probed, Ok(found)), Ok(confirmed)),
        call_ensures(ConfirmedOpen::is_directory, (&confirmed,), is_directory),
        call_ensures(CapFs::opened, (entering, confirmed, opened), r),
    ensures
        is_directory <==> found.is_dir,
        r is Ok <==> old(entering)@.next_handle < u32::MAX,
        r matches Ok(fd) ==> {
            let before = old(entering)@;
            let after = final(entering)@;
            let parent = fs@.descriptors[dir_fd];
            let entry = after.descriptors[fd];
            &&& fd == before.next_handle
            &&& after.next_handle == fd + 1
            &&& after.descriptors == before.descriptors.insert(fd, entry)
            &&& after.streams == before.streams
            &&& after.dir_streams == before.dir_streams
            &&& after.preopens == before.preopens
            &&& after.budget == before.budget
            &&& entry.root_fd == parent.root_fd
            &&& entry.parent_fd == Some(dir_fd)
            &&& entry.path.components == parent.path.components + parsed(path@)->0.components
            &&& !entry.is_preopen
            &&& entry.descriptor_type is Directory <==> opened is Some
            &&& entry.descriptor_type is RegularFile <==> opened is None
            &&& opened matches Some(host) ==> {
                &&& entry.directory->0.host() == host
                &&& entry.directory->0.grants() == parent.directory->0.grants()
                &&& entry.directory->0.file_grants() == parent.directory->0.file_grants()
            }
        },
        r is Err ==> final(entering)@ == old(entering)@,
{
    if let Some(host) = opened {
        let parent = fs@.descriptors[dir_fd].directory->0;
        Dir::lemma_wrapping(host, parent.grants(), parent.file_grants());
    }
}

/// A read holds exactly what was asked for, as far as the file goes: where the
/// limits and the budget leave room, just the bytes between the offset and the
/// end, up to the number that was asked for. Nothing is read only where nothing
/// was asked for or nothing is left.
pub proof fn law_reads_hold_what_was_asked_for(
    fs: CapFs,
    fd: u32,
    offset: u64,
    len: u64,
    op: ReadRequest,
    later: &mut CapFs,
    size: u64,
    step: Result<ReadStep, FsError>,
)
    requires
        call_ensures(CapFs::read_file, (&fs, fd, offset, len), Ok(op)),
        call_ensures(CapFs::read_sized, (later, op, Ok(size)), step),
        old(later)@.limits.max_single_read_bytes >= len,
        usize::MAX >= len,
        old(later)@.budget.bytes_read + len <= old(later)@.limits.max_read_bytes_per_run,
    ensures
        ({
            let before = old(later)@;
            let left = if offset < size {
                size - offset
            } else {
                0
            };
            let amount = if len < left {
                len as int
            } else {
                left
            };
            &&& step is Ok
            &&& step->Ok_0 is Nothing <==> amount == 0
            &&& step matches Ok(ReadStep::Read(plan)) ==> {
                &&& plan.start == offset
                &&& plan.amount == amount
                &&& plan.file_size == size
            }
            &&& final(later)@ == FsView {
                budget: RunBudget {
                    bytes_read: (before.budget.bytes_read + amount) as u64,
                    ..before.budget
                },
                ..before
            }
        }),
{
}

/// Whatever the limits are, a read never holds more than was asked for, than is
/// left, or than one read may hold, and is always as large as one of them; it is
/// charged by what it holds, and refused only where the budget does not cover
/// that.
pub proof fn law_reads_are_limited(
    fs: CapFs,
    fd: u32,
    offset: u64,
    len: u64,
    op: ReadRequest,
    later: &mut CapFs,
    size: u64,
    step: Result<ReadStep, FsError>,
)
    requires
        call_ensures(CapFs::read_file, (&fs, fd, offset, len), Ok(op)),
        call_ensures(CapFs::read_sized, (later, op, Ok(size)), step),
    ensures
        ({
            let before = old(later)@;
            let single = before.limits.max_single_read_bytes;
            &&& step matches Ok(ReadStep::Read(plan)) ==> {
                &&& plan.start == offset
                &&& plan.start + plan.amount <= size
                &&& 0 < plan.amount <= len
                &&& plan.amount <= single
                &&& plan.amount == len || plan.start + plan.amount == size || plan.amount == single
                    || plan.amount == usize::MAX
                &&& final(later)@.budget.bytes_read == before.budget.bytes_read + plan.amount
                &&& final(later)@.budget.bytes_read <= before.limits.max_read_bytes_per_run
            }
            &&& step matches Ok(ReadStep::Nothing) ==> {
                &&& len == 0 || offset >= size || single == 0
                &&& final(later)@ == before
            }
            &&& step matches Err(e) ==> e is Quota && final(later)@ == before
        }),
{
}

/// Reading and writing are asked for exactly on open files that grant it, and
/// are done on the file at its path below the mount.
pub proof fn law_files_are_read_and_written_by_right(
    fs: CapFs,
    fd: u32,
    offset: u64,
    len: u64,
    read: Result<ReadRequest, FsError>,
    writing: &mut CapFs,
    buffer: &[u8],
    write: Result<WriteRequest, FsError>,
)
    requires
        fs.wf(),
        call_ensures(CapFs::read_file, (&fs, fd, offset, len), read),
        call_ensures(CapFs::write_file, (writing, fd, offset, buffer), write),
        old(writing)@ == fs@,
    ensures
        ({
            let entry = fs@.descriptors[fd];
            let is_file = fs@.descriptors.contains_key(fd) && entry.descriptor_type is RegularFile;
            let mount = fs@.preopens[entry.root_fd].dir;
            let written = fs@.budget.bytes_written + buffer@.len();
            &&& read is Ok <==> is_file && mount.file_grants().reads()
            &&& read matches Err(e) ==> if is_file {
                e is NotPermitted
            } else {
                e is BadDescriptor
            }
            &&& read matches Ok(op) ==> op@.target.dir == mount && op@.target.path == entry.path
                && op@.offset == offset && op@.len == len
            &&& buffer@.len() <= u64::MAX ==> {
                &&& write is Ok <==> is_file && mount.file_grants().writes() && written
                    <= fs@.limits.max_written_bytes_per_run
                &&& write matches Ok(op) ==> {
                    &&& op@.target.dir == mount
                    &&& op@.target.path == entry.path
                    &&& op@.offset == offset
                    &&& op@.len == buffer@.len()
                    &&& final(writing)@ == FsView {
                        budget: RunBudget { bytes_written: written as u64, ..fs@.budget },
                        ..fs@
                    }
                }
                &&& write matches Err(e) ==> {
                    &&& final(writing)@ == fs@
                    &&& if !is_file {
                        e is BadDescriptor
                    } else if !mount.file_grants().writes() {
                        e is NotPermitted
                    } else {
                        e is Quota
                    }
                }
            }
        }),
{
}

/// A write is done at its offset and for its length, after the file was
/// extended exactly to where the write ends, where it reaches past the end.
pub proof fn law_writes_are_planned(
    op: WriteRequest,
    size: u64,
    plan: Result<WritePlan, FsError>,
)
    requires
        call_ensures(WriteRequest::sized, (op, Ok(size)), plan),
    ensures
        match plan {
            Ok(p) => {
                let end = op@.offset + op@.len;
                &&& p.offset == op@.offset
                &&& p.len == op@.len
                &&& end > size ==> p.extend_to == Some(end as u64)
                &&& end <= size ==> p.extend_to is None
                &&& end <= u64::MAX
            },
            Err(e) => e is Overflow && op@.offset + op@.len > u64::MAX,
        },
{
}

/// Whether or not a final symbolic link is followed, what is reported of a path
/// has the length that the host found, and is what the host found it to be.
pub proof fn law_lengths_are_reported(
    fs: CapFs,
    dir_fd: u32,
    path: &str,
    path_flags: PathFlags,
    op: PendingStat,
    found: HostMetadata,
    stat: Result<DescriptorStat, FsError>,
)
    requires
        call_ensures(CapFs::stat_at_with_path_flags, (&fs, dir_fd, path, path_flags), Ok(op)),
        call_ensures(PendingStat::replied, (op, Ok(found)), stat),
    ensures
        stat is Ok <==> (parsed(path@)->0.requires_directory ==> found.is_dir),
        stat matches Err(e) ==> e is InvalidPath,
        stat matches Ok(s) ==> {
            &&& s.size == found.len
            &&& s.descriptor_type is Directory <==> found.is_dir
            &&& s.descriptor_type is SymbolicLink <==> found.is_symlink && !found.is_dir
            &&& s.descriptor_type is RegularFile <==> !found.is_symlink && !found.is_dir
        },
{
}

/// Both ways of asking for the metadata of a path report the same of what was
/// found there.
pub proof fn law_both_ways_of_asking_report_the_same(
    fs: CapFs,
    dir_fd: u32,
    path: &str,
    one: PathFlags,
    other: PathFlags,
    a: PendingStat,
    b: PendingStat,
    found: HostMetadata,
    first: DescriptorStat,
    second: DescriptorStat,
)
    requires
        call_ensures(CapFs::stat_at_with_path_flags, (&fs, dir_fd, path, one), Ok(a)),
        call_ensures(CapFs::stat_at_with_path_flags, (&fs, dir_fd, path, other), Ok(b)),
        call_ensures(PendingStat::replied, (a, Ok(found)), Ok(first)),
        call_ensures(PendingStat::replied, (b, Ok(found)), Ok(second)),
    ensures
        first == second,
{
}

/// What is known of an open descriptor: a directory has no size, a file is to be
/// looked up at its path below the mount, and nothing is known of what is not
/// open.
pub proof fn law_what_is_known_of_a_descriptor(
    fs: CapFs,
    fd: u32,
    stat: Result<StatQuery, FsError>,
    size: Option<Target>,
    append: Result<Target, FsError>,
    kind: Result<DescriptorType, FsError>,
    parent: Option<u32>,
    flags: Result<DescriptorFlags, FsError>,
)
    requires
        fs.wf(),
        call_ensures(CapFs::stat, (&fs, fd), stat),
        call_ensures(CapFs::file_size, (&fs, fd), size),
        call_ensures(CapFs::create_append_stream, (&fs, fd), append),
        call_ensures(CapFs::get_type, (&fs, fd), kind),
        call_ensures(CapFs::file_dir_fd, (&fs, fd), parent),
        call_ensures(CapFs::get_flags, (&fs, fd), flags),
    ensures
        ({
            let entry = fs@.descriptors[fd];
            let open = fs@.descriptors.contains_key(fd);
            let mount = fs@.preopens[entry.root_fd].dir;
            let at_path = |target: Target| target@.dir == mount && target@.path == entry.path;
            &&& !open ==> {
                &&& stat is Err && stat->Err_0 is BadDescriptor
                &&& kind is Err && kind->Err_0 is BadDescriptor
                &&& flags is Err && flags->Err_0 is BadDescriptor
                &&& append is Err && append->Err_0 is BadDescriptor
                &&& size is None
                &&& parent is None
            }
            &&& open && entry.descriptor_type is Directory ==> {
                &&& stat matches Ok(StatQuery::Known(s)) && s.size == 0 && s.descriptor_type
                    == DescriptorType::Directory
                &&& kind == Ok::<_, FsError>(DescriptorType::Directory)
                &&& flags matches Ok(f) && f.read == mount.grants().reads() && f.write
                    == mount.grants().mutates() && f.mutate_directory == mount.grants().mutates()
                &&& append is Err && append->Err_0 is BadDescriptor
                &&& size is None
                &&& parent is None
            }
            &&& open && entry.descriptor_type is RegularFile ==> {
                &&& stat matches Ok(StatQuery::Ask(target)) && at_path(target)
                &&& size matches Some(target) && at_path(target)
                &&& append matches Ok(target) && at_path(target)
                &&& kind == Ok::<_, FsError>(DescriptorType::RegularFile)
                &&& flags matches Ok(f) && f.read == mount.file_grants().reads() && f.write
                    == mount.file_grants().writes() && !f.mutate_directory
                &&& parent == entry.parent_fd
            }
        }),
{
    if fs@.descriptors.contains_key(fd) {
        assert(fs@.descriptor_ok(fd));
    }
}

/// A stream is opened on the file, at the offset and for the purpose that were
/// asked for; one that appends stands at the end of its file.
pub proof fn law_streams_are_opened_as_asked(
    reading: &mut CapFs,
    writing: &mut CapFs,
    appending: &mut CapFs,
    fd: u32,
    offset: u64,
    found: HostMetadata,
    read: Result<u32, FsError>,
    write: Result<u32, FsError>,
    append: Result<u32, FsError>,
)
    requires
        call_ensures(CapFs::create_read_stream, (reading, fd, offset), read),
        call_ensures(CapFs::create_write_stream, (writing, fd, offset), write),
        call_ensures(CapFs::append_sized, (appending, fd, Ok(found)), append),
    ensures
        read matches Ok(id) ==> {
            let before = old(reading)@;
            &&& id == before.next_handle
            &&& final(reading)@ == FsView {
                streams: before.streams.insert(
                    id,
                    StreamState { file_fd: fd, offset, is_write: false },
                ),
                next_handle: (id + 1) as u32,
                ..before
            }
        },
        write matches Ok(id) ==> {
            let before = old(writing)@;
            &&& id == before.next_handle
            &&& final(writing)@ == FsView {
                streams: before.streams.insert(
                    id,
                    StreamState { file_fd: fd, offset, is_write: true },
                ),
                next_handle: (id + 1) as u32,
                ..before
            }
        },
        append matches Ok(id) ==> {
            let before = old(appending)@;
            &&& id == before.next_handle
            &&& final(appending)@ == FsView {
                streams: before.streams.insert(
                    id,
                    StreamState { file_fd: fd, offset: found.len, is_write: true },
                ),
                next_handle: (id + 1) as u32,
                ..before
            }
        },
        read is Err ==> final(reading)@ == old(reading)@,
        write is Err ==> final(writing)@ == old(writing)@,
        append is Err ==> final(appending)@ == old(appending)@,
        read is Ok <==> {
            let before = old(reading)@;
            let entry = before.descriptors[fd];
            &&& before.descriptors.contains_key(fd)
            &&& entry.descriptor_type is RegularFile
            &&& before.preopens[entry.root_fd].dir.file_grants().reads()
            &&& before.streams.len() + before.dir_streams.len() < before.limits.max_open_streams
            &&& before.next_handle < u32::MAX
        },
        write is Ok <==> {
            let before = old(writing)@;
            let entry = before.descriptors[fd];
            &&& before.descriptors.contains_key(fd)
            &&& entry.descriptor_type is RegularFile
            &&& before.preopens[entry.root_fd].dir.file_grants().writes()
            &&& before.streams.len() + before.dir_streams.len() < before.limits.max_open_streams
            &&& before.next_handle < u32::MAX
        },
{
}

/// A read from a stream goes to where the stream stands, and wants as many bytes
/// as were asked for and are left; as many are read as one read may hold.
pub proof fn law_stream_reads_are_planned(
    fs: CapFs,
    id: u32,
    len: u64,
    op: StreamRequest,
    size: u64,
    plan: Result<StreamPlan, FsError>,
    seeking: &mut CapFs,
    sought: StreamPlan,
    r: Result<usize, FsError>,
)
    requires
        call_ensures(CapFs::stream_read, (&fs, id, len), Ok(op)),
        call_ensures(StreamRequest::sized, (op, Ok(size)), plan),
        call_ensures(CapFs::stream_sought, (seeking, &sought, Ok(())), r),
    ensures
        ({
            let stream = fs@.streams[id];
            let left = size - stream.offset;
            &&& fs@.streams.contains_key(id)
            &&& op@.target.path == fs@.descriptors[stream.file_fd].path
            &&& op@.target.dir == fs@.preopens[fs@.descriptors[stream.file_fd].root_fd].dir
            &&& plan is Ok <==> stream.offset < size
            &&& plan matches Ok(p) ==> {
                &&& p.stream_id == id
                &&& p.offset == stream.offset
                &&& p.wanted <= len
                &&& p.wanted <= left
                &&& p.wanted == len || p.wanted == left
            }
        }),
        ({
            let before = old(seeking)@;
            let single = before.limits.max_single_read_bytes;
            match r {
                Ok(amount) => {
                    &&& amount <= sought.wanted
                    &&& amount <= single
                    &&& amount == sought.wanted || amount == single || amount == usize::MAX
                    &&& final(seeking)@ == FsView {
                        budget: RunBudget {
                            bytes_read: (before.budget.bytes_read + amount) as u64,
                            ..before.budget
                        },
                        ..before
                    }
                    &&& before.budget.bytes_read + amount <= before.limits.max_read_bytes_per_run
                },
                Err(e) => e is Quota && final(seeking)@ == before && before.budget.bytes_read
                    + sought.wanted > before.limits.max_read_bytes_per_run,
            }
        }),
{
}

/// What was read from a stream is handed out, and what was written is reported;
/// the stream moves on by as much.
pub proof fn law_streams_follow_what_was_done(
    reading: &mut CapFs,
    id: u32,
    data: Vec<u8>,
    got: Result<Vec<u8>, FsError>,
    writing: &mut CapFs,
    written: u64,
    wrote: Result<u64, FsError>,
    asking: &mut CapFs,
    buffer: &[u8],
    ask: StreamWrite,
)
    requires
        data@.len() > 0,
        call_ensures(CapFs::stream_got, (reading, id, Ok(data)), got),
        call_ensures(CapFs::stream_wrote, (writing, id, written), wrote),
        call_ensures(CapFs::stream_write, (asking, id, buffer), Ok(ask)),
        old(reading)@.streams.contains_key(id),
        old(writing)@.streams.contains_key(id),
    ensures
        got matches Ok(d) && d == data,
        wrote matches Ok(n) && n == written,
        ({
            let before = old(reading)@.streams[id];
            let after = final(reading)@.streams[id];
            &&& after.file_fd == before.file_fd
            &&& after.is_write == before.is_write
            &&& before.offset + data@.len() <= u64::MAX ==> after.offset == before.offset
                + data@.len()
            &&& final(reading)@ == FsView {
                streams: old(reading)@.streams.insert(id, after),
                ..old(reading)@
            }
        }),
        ({
            let before = old(writing)@.streams[id];
            let after = final(writing)@.streams[id];
            &&& after.file_fd == before.file_fd
            &&& after.is_write == before.is_write
            &&& before.offset + written <= u64::MAX ==> after.offset == before.offset + written
            &&& final(writing)@ == FsView {
                streams: old(writing)@.streams.insert(id, after),
                ..old(writing)@
            }
        }),
        ({
            let stream = old(asking)@.streams[id];
            &&& old(asking)@.streams.contains_key(id)
            &&& ask.stream_id == id
            &&& ask.request@.offset == stream.offset
            &&& buffer@.len() <= u64::MAX ==> ask.request@.len == buffer@.len()
            &&& ask.request@.target.path == old(asking)@.descriptors[stream.file_fd].path
        }),
{
}

/// Closing a stream takes away that stream and nothing else.
pub proof fn law_closed_streams_are_gone(files: &mut CapFs, dirs: &mut CapFs, id: u32)
    requires
        call_ensures(CapFs::close_stream, (files, id), ()),
        call_ensures(CapFs::close_dir_stream, (dirs, id), ()),
    ensures
        final(files)@ == (FsView { streams: old(files)@.streams.remove(id), ..old(files)@ }),
        final(dirs)@ == (FsView { dir_streams: old(dirs)@.dir_streams.remove(id), ..old(dirs)@ }),
{
}

/// A listing starts empty on the directory that was asked for; an entry that is
/// taken is added at its end as the host named it; and the stream that it
/// becomes hands out the first entry first.
pub proof fn law_listings_hold_what_was_found(
    fs: CapFs,
    dir_fd: u32,
    listing: Listing,
    taking: &mut CapFs,
    growing: &mut Listing,
    entry: HostEntry,
    taken: Result<(), FsError>,
    finishing: &mut CapFs,
    whole: Listing,
    id: u32,
    reading: &mut CapFs,
    stream: u32,
    read: Option<Option<(String, bool)>>,
)
    requires
        call_ensures(CapFs::create_dir_stream, (&fs, dir_fd), Ok(listing)),
        call_ensures(CapFs::list_entry, (taking, growing, Ok(entry)), taken),
        call_ensures(CapFs::list_finished, (finishing, whole), Ok(id)),
        call_ensures(CapFs::read_dir_entry, (reading, stream), read),
        fs.wf(),
    ensures
        listing@.entries.len() == 0,
        listing@.dir_fd == dir_fd,
        fs@.descriptors[dir_fd].directory == Some(listing@.dir),
        taken is Ok ==> {
            &&& entry.is_dir is Ok
            &&& final(growing)@.entries == old(growing)@.entries.push(
                (entry.name@, entry.is_dir->Ok_0),
            )
            &&& final(growing)@.dir_fd == old(growing)@.dir_fd
            &&& final(taking)@.budget.directory_entries == old(taking)@.budget.directory_entries + 1
        },
        taken is Err ==> final(growing)@ == old(growing)@,
        taken is Ok <==> {
            let before = old(taking)@;
            &&& old(growing)@.entries.len() < before.limits.max_directory_entries_per_listing
            &&& before.budget.directory_entries < before.limits.max_directory_entries_per_run
            &&& entry.is_dir is Ok
        },
        id == old(finishing)@.next_handle,
        final(finishing)@.dir_streams[id].entries == whole@.entries,
        final(finishing)@.dir_streams[id].dir_fd == whole@.dir_fd,
        final(finishing)@.dir_streams[id].cursor == 0,
        ({
            let before = old(reading)@;
            let s = before.dir_streams[stream];
            if !before.dir_streams.contains_key(stream) {
                read is None && final(reading)@ == before
            } else if s.cursor >= s.entries.len() {
                read == Some(None::<(String, bool)>) && final(reading)@ == before
            } else {
                &&& read matches Some(Some(e)) && (e.0@, e.1) == s.entries[s.cursor as int]
                &&& final(reading)@.dir_streams[stream].cursor == s.cursor + 1
                &&& final(reading)@.dir_streams[stream].entries == s.entries
            }
        }),
{
    if fs@.descriptors.contains_key(dir_fd) {
        assert(fs@.descriptor_ok(dir_fd));
    }
}

/// Making a directory, removing one and unlinking a file are asked for exactly
/// where the directory around it may be changed; making one is charged as a
/// creation; and a name that can only be a directory's is not unlinked.
pub proof fn law_names_are_changed_by_right(
    fs: CapFs,
    making: &mut CapFs,
    dir_fd: u32,
    path: &str,
    made: Result<Target, FsError>,
    removing: Result<Removal, FsError>,
    unlinking: Result<Unlink, FsError>,
)
    requires
        fs.wf(),
        old(making)@ == fs@,
        call_ensures(CapFs::create_directory_at, (making, dir_fd, path), made),
        call_ensures(CapFs::remove_directory_at, (&fs, dir_fd, path), removing),
        call_ensures(CapFs::unlink_file_at, (&fs, dir_fd, path), unlinking),
    ensures
        ({
            let before = fs@;
            let dir = before.descriptors[dir_fd].directory->0;
            let asked = parsed(path@)->0;
            let granted = before.resolved(dir_fd, path@) is Ok && dir.grants().mutates();
            let room = before.budget.creations < before.limits.max_creations_per_run;
            &&& made is Ok <==> granted && room
            &&& made matches Ok(target) ==> {
                &&& target@.dir == dir
                &&& target@.path == asked
                &&& final(making)@ == FsView {
                    budget: RunBudget {
                        creations: (before.budget.creations + 1) as u64,
                        ..before.budget
                    },
                    ..before
                }
            }
            &&& made is Err ==> final(making)@ == before
            &&& made matches Err(e) ==> (granted ==> e is Quota)
            &&& removing is Ok <==> granted
            &&& removing matches Ok(op) ==> op@.target.dir == dir && op@.target.path == asked
            &&& unlinking is Ok <==> granted
            &&& unlinking matches Ok(Unlink::Remove(op)) ==> {
                &&& !asked.requires_directory
                &&& op@.target.dir == dir
                &&& op@.target.path == asked
            }
            &&& unlinking matches Ok(Unlink::Refuse(target)) ==> asked.requires_directory
        }),
{
}

/// What the host did to a name is concluded by its reply: a failure is reported
/// and changes nothing; a success drops what was opened at the names and below
/// them.
pub proof fn law_changes_are_concluded(
    removing: &mut CapFs,
    removal: Removal,
    reply: Result<(), HostError>,
    removed: Result<(), FsError>,
    moving: &mut CapFs,
    rename: Rename,
    moved: Result<(), FsError>,
    fd: u32,
)
    requires
        call_ensures(CapFs::removed, (removing, removal, reply), removed),
        call_ensures(CapFs::renamed, (moving, rename, reply), moved),
    ensures
        removed is Ok <==> reply is Ok,
        moved is Ok <==> reply is Ok,
        reply is Err ==> {
            &&& final(removing)@ == old(removing)@
            &&& final(moving)@ == old(moving)@
            &&& removed->Err_0@ == reply->Err_0.classify()
            &&& moved->Err_0@ == reply->Err_0.classify()
        },
        reply is Ok ==> final(removing)@.descriptors.contains_key(fd) == {
            let before = old(removing)@;
            let entry = before.descriptors[fd];
            &&& before.descriptors.contains_key(fd)
            &&& entry.is_preopen || entry.root_fd != removal@.root_fd || !exists|
                rest: Seq<Seq<char>>,
            | entry.path.components == removal@.root_path.components + rest
        },
        reply is Ok && rename@.source.root_path.components
            != rename@.destination.root_path.components ==> final(moving)@.descriptors.contains_key(fd) == {
            let before = old(moving)@;
            let entry = before.descriptors[fd];
            &&& before.descriptors.contains_key(fd)
            &&& entry.is_preopen || entry.root_fd != rename@.source.root_fd || !exists|
                rest: Seq<Seq<char>>,
            | entry.path.components == rename@.source.root_path.components + rest
            &&& entry.is_preopen || entry.root_fd != rename@.destination.root_fd || !exists|
                rest: Seq<Seq<char>>,
            | entry.path.components == rename@.destination.root_path.components + rest
        },
        reply is Ok && rename@.source.root_path.components
            == rename@.destination.root_path.components ==> final(moving)@ == old(moving)@,
{
    let a = old(removing)@.descriptors[fd].path;
    let b = old(moving)@.descriptors[fd].path;
    law_lying_within(a, removal@.root_path);
    law_lying_within(b, rename@.source.root_path);
    law_lying_within(b, rename@.destination.root_path);
}

/// Closing takes away what is open and no mount, with its streams; anything else
/// it refuses, and then nothing changes.
pub proof fn law_descriptors_are_closed(
    closing: &mut CapFs,
    fd: u32,
    r: Result<(), FsError>,
    quietly: &mut CapFs,
    id: u32,
)
    requires
        call_ensures(CapFs::close_descriptor, (closing, fd), r),
        call_ensures(CapFs::close_file, (quietly, fd), ()),
    ensures
        ({
            let before = old(closing)@;
            let after = final(closing)@;
            let open = before.descriptors.contains_key(fd);
            &&& r is Ok <==> open && !before.descriptors[fd].is_preopen
            &&& r matches Err(e) ==> {
                &&& after == before
                &&& if open {
                    e is NotPermitted
                } else {
                    e is BadDescriptor
                }
            }
            &&& r is Ok ==> {
                &&& after.descriptors == before.descriptors.remove(fd)
                &&& after.streams.contains_key(id) <==> before.streams.contains_key(id)
                    && before.streams[id].file_fd != fd
                &&& after.dir_streams.contains_key(id) <==> before.dir_streams.contains_key(id)
                    && before.dir_streams[id].dir_fd != fd
            }
            &&& old(quietly)@ == before ==> final(quietly)@ == after
        }),
{
    let before = old(closing)@;
    if before.descriptors.contains_key(fd) && !before.descriptors[fd].is_preopen {
        assert(before.descriptors.remove_keys(set![fd]) =~= before.descriptors.remove(fd));
        assert(before.streams_on(set![fd]).contains(id) <==> before.streams.contains_key(id)
            && before.streams[id].file_fd == fd);
        assert(before.dir_streams_on(set![fd]).contains(id) <==> before.dir_streams.contains_key(id)
            && before.dir_streams[id].dir_fd == fd);
    }
}

/// The output directory is what the host lists, and a listing keeps the name of
/// a regular file and of nothing else, up to ten thousand of them.
pub proof fn law_output_is_listed(
    fs: CapFs,
    dir: Option<&Dir>,
    noting: &mut OutputListing,
    name: String,
    is_file: Option<bool>,
    noted: bool,
    files: Vec<String>,
    listing: OutputListing,
)
    requires
        fs.wf(),
        call_ensures(CapFs::get_output_files, (&fs,), dir),
        call_ensures(OutputListing::note, (noting, name, is_file), noted),
        call_ensures(OutputListing::files, (listing,), files),
    ensures
        MAX_OUTPUT_FILE_COUNT == 10_000,
        dir is Some <==> fs@.output_fd is Some,
        dir matches Some(d) ==> *d == fs@.preopens[fs@.output_fd->0].dir,
        noted ==> final(noting).taken() == old(noting).taken().push((name@, is_file)),
        !noted ==> final(noting).taken() == old(noting).taken(),
        noted <==> file_names(old(noting).taken()).len() < 10_000,
        texts(files@) == file_names(listing.taken()),
        files@.len() <= 10_000,
{
}

/// What the host reads by a guest path is charged and read whole, and what it
/// writes is charged by its length.
pub proof fn law_the_host_is_charged(
    reading: &mut CapFs,
    size: u64,
    read: Result<u64, GuestFileError>,
    writing: &mut CapFs,
    found: HostMetadata,
    len: u64,
    wrote: Result<(), OutputPathError>,
)
    requires
        call_ensures(CapFs::guest_file_sized, (reading, GuestFileReply::Size(size)), read),
        call_ensures(CapFs::output_probed, (writing, Ok(found), len), wrote),
    ensures
        ({
            let before = old(reading)@;
            let used = before.budget.bytes_read + size;
            &&& read is Ok <==> size <= before.limits.max_single_read_bytes && size <= usize::MAX
                && used <= before.limits.max_read_bytes_per_run
            &&& read matches Ok(amount) ==> amount == size && final(reading)@.budget.bytes_read
                == used
            &&& read is Err ==> final(reading)@ == before
        }),
        ({
            let before = old(writing)@;
            let used = before.budget.bytes_written + len;
            &&& wrote is Ok <==> used <= before.limits.max_written_bytes_per_run
            &&& wrote is Ok ==> final(writing)@.budget.bytes_written == used && final(writing)@.budget.creations == before.budget.creations
            &&& wrote is Err ==> final(writing)@ == before
        }),
{
}

/// Every kind of mount is at its own guest path, has its own lifetime, and
/// grants just what it is for.
pub proof fn law_mounts_are_made_for_their_purpose(
    fs: CapFs,
    host: HostDir,
    perms: DirPerms,
    file_perms: FilePerms,
    access: WorkDirAccess,
    input: CapFs,
    output: CapFs,
    temporary: CapFs,
    work: CapFs,
    temp: CapFs,
)
    requires
        call_ensures(CapFs::with_input, (fs, host), Ok(input)),
        call_ensures(CapFs::with_output_dir, (fs, host, perms, file_perms), Ok(output)),
        call_ensures(CapFs::with_temp_output, (fs, host), Ok(temporary)),
        call_ensures(CapFs::with_work, (fs, host, access), Ok(work)),
        call_ensures(CapFs::with_temp_dir, (fs, host), Ok(temp)),
    ensures
        ({
            let fd = fs@.next_handle;
            let writes = access is ReadWrite;
            let at = |mounted: CapFs, path: Seq<char>, lifetime: MountLifetime|
                {
                    &&& mounted@.preopens.contains_key(fd)
                    &&& mounted@.preopens[fd].guest_path == path
                    &&& mounted@.preopens[fd].lifetime == lifetime
                    &&& mounted@.preopens[fd].dir.host() == host.dir
                };
            let rights = |mounted: CapFs, dir: DirPerms, files: FilePerms|
                {
                    &&& mounted@.preopens[fd].dir.grants() == dir
                    &&& mounted@.preopens[fd].dir.file_grants() == files
                };
            &&& at(input, "/input"@, MountLifetime::Persistent)
            &&& rights(input, DirPerms::READ, FilePerms::READ)
            &&& at(output, "/output"@, MountLifetime::ClearBeforeRun)
            &&& rights(output, perms, file_perms)
            &&& output@.output_fd == Some(fd) && output@.output_path == Some(host.path)
            &&& at(temporary, "/output"@, MountLifetime::ClearBeforeRun)
            &&& rights(temporary, DirPerms::READ_MUTATE, FilePerms::READ_WRITE)
            &&& temporary@.output_fd == Some(fd) && temporary@.output_path == Some(host.path)
            &&& at(work, "/work"@, MountLifetime::Persistent)
            &&& work@.preopens[fd].dir.grants().reads()
            &&& work@.preopens[fd].dir.file_grants().reads()
            &&& work@.preopens[fd].dir.grants().mutates() == writes
            &&& work@.preopens[fd].dir.file_grants().writes() == writes
            &&& at(temp, "/tmp"@, MountLifetime::ClearBeforeRun)
            &&& rights(temp, DirPerms::READ_MUTATE, FilePerms::READ_WRITE)
            &&& temp@.temp_path == Some(host.path)
        }),
{
}

/// Before a run exactly the mounts that do not keep their contents are cleared,
/// from the first on; and the counters start anew exactly where all of them
/// were.
pub proof fn law_runs_start_clean(
    fs: CapFs,
    clearing: Sweep,
    preparing: Sweep,
    all: Sweep,
    fd: u32,
    running: &mut CapFs,
    sweep: Sweep,
    r: Result<(), FsError>,
)
    requires
        call_ensures(CapFs::clear_ephemeral_mounts, (&fs,), clearing),
        call_ensures(CapFs::prepare_for_run, (&fs,), preparing),
        call_ensures(CapFs::clear, (&fs,), all),
        call_ensures(CapFs::run_prepared, (running, sweep), r),
    ensures
        ({
            let due = fs@.preopens.contains_key(fd) && fs@.preopens[fd].lifetime
                == MountLifetime::ClearBeforeRun;
            &&& clearing@.mounts.contains(fd) <==> due
            &&& preparing@.mounts.contains(fd) <==> due
            &&& all@.mounts.contains(fd) <==> due
            &&& clearing@.next == 0 && clearing@.failure is None
            &&& preparing@.next == 0 && preparing@.failure is None
            &&& all@.next == 0 && all@.failure is None
        }),
        r is Ok <==> sweep@.failure is None,
        r is Ok ==> final(running)@ == (FsView {
            budget: RunBudget {
                bytes_read: 0,
                bytes_written: 0,
                creations: 0,
                directory_entries: 0,
            },
            ..old(running)@
        }),
        r is Err ==> final(running)@ == old(running)@,
{
    assert(clearing@.mounts.to_set().contains(fd) <==> clearing@.mounts.contains(fd));
    assert(preparing@.mounts.to_set().contains(fd) <==> preparing@.mounts.contains(fd));
    assert(all@.mounts.to_set().contains(fd) <==> all@.mounts.contains(fd));
    assert(fs@.ephemeral().contains(fd) <==> fs@.preopens.contains_key(fd)
        && fs@.preopens[fd].lifetime is ClearBeforeRun);
}

/// A mount is cleared in its own directory and under the limits that apply;
/// one that keeps its contents, or is none, is not.
pub proof fn law_mounts_are_cleared_by_lifetime(
    fs: CapFs,
    fd: u32,
    r: Result<Cleanup, FsError>,
)
    requires
        call_ensures(CapFs::clear_mount, (&fs, fd), r),
    ensures
        match r {
            Ok(cleanup) => {
                &&& fs@.preopens.contains_key(fd)
                &&& fs@.preopens[fd].lifetime is ClearBeforeRun
                &&& cleanup.mount() == fd
                &&& cleanup.directory() == fs@.preopens[fd].dir
                &&& cleanup@.max_entries == fs@.limits.max_cleanup_entries
                &&& cleanup@.max_depth == fs@.limits.max_recursive_depth
                &&& cleanup@.entries == 0
            },
            Err(e) => if fs@.preopens.contains_key(fd) {
                e is NotPermitted && fs@.preopens[fd].lifetime is Persistent
            } else {
                e is BadDescriptor
            },
        },
{
}

/// What can be asked of streams and mounts is answered by the tables.
pub proof fn law_questions_are_answered(
    fs: CapFs,
    fd: u32,
    guest_path: &str,
    name: &str,
    dir: bool,
    file: bool,
    stream: bool,
    writes: bool,
    dir_stream: bool,
    lifetime: Option<MountLifetime>,
    mount: Option<&Dir>,
    found: Option<u32>,
)
    requires
        fs.wf(),
        call_ensures(CapFs::is_directory, (&fs, fd), dir),
        call_ensures(CapFs::is_file, (&fs, fd), file),
        call_ensures(CapFs::has_stream, (&fs, fd), stream),
        call_ensures(CapFs::is_write_stream, (&fs, fd), writes),
        call_ensures(CapFs::has_dir_stream, (&fs, fd), dir_stream),
        call_ensures(CapFs::mount_lifetime, (&fs, fd), lifetime),
        call_ensures(CapFs::dir_by_guest_path, (&fs, guest_path), mount),
        call_ensures(CapFs::find_file_in_dir, (&fs, fd, name), found),
    ensures
        dir <==> fs@.descriptors.contains_key(fd) && fs@.descriptors[fd].descriptor_type
            == DescriptorType::Directory,
        file <==> fs@.descriptors.contains_key(fd) && fs@.descriptors[fd].descriptor_type
            == DescriptorType::RegularFile,
        stream <==> fs@.streams.contains_key(fd),
        writes <==> fs@.streams.contains_key(fd) && fs@.streams[fd].is_write,
        dir_stream <==> fs@.dir_streams.contains_key(fd),
        lifetime is Some <==> fs@.preopens.contains_key(fd),
        lifetime matches Some(l) ==> l == fs@.preopens[fd].lifetime,
        mount is None <==> !exists|m: u32| #[trigger]
            fs@.preopens.contains_key(m) && fs@.preopens[m].guest_path == guest_path@,
        mount matches Some(d) ==> exists|m: u32| #[trigger]
            fs@.preopens.contains_key(m) && fs@.preopens[m].guest_path == guest_path@
                && fs@.preopens[m].dir == *d,
        found matches Some(f) ==> {
            let entry = fs@.descriptors[f];
            &&& fs@.descriptors.contains_key(f)
            &&& entry.descriptor_type == DescriptorType::RegularFile
            &&& entry.parent_fd == Some(fd)
            &&& entry.path.components.last() == name@
            &&& forall|lower: u32| #[trigger]
                fs@.descriptors.contains_key(lower) && fs@.descriptors[lower].descriptor_type
                    == DescriptorType::RegularFile && fs@.descriptors[lower].parent_fd == Some(fd)
                    && fs@.descriptors[lower].path.components.last() == name@ ==> f <= lower
        },
        found is None ==> forall|f: u32| #[trigger]
            fs@.descriptors.contains_key(f) && fs@.descriptors[f].descriptor_type
                == DescriptorType::RegularFile && fs@.descriptors[f].parent_fd == Some(fd)
                ==> fs@.descriptors[f].path.components.last() != name@,
{
    law_mounts_are_found_by_their_path(fs@, guest_path@);
    assert forall|f: u32| #[trigger]
        fs@.descriptors.contains_key(f) && fs@.descriptors[f].descriptor_type
            == DescriptorType::RegularFile && fs@.descriptors[f].parent_fd == Some(fd)
            && fs@.descriptors[f].path.components.last() == name@ implies found matches Some(least)
        && least <= f by {
        assert(fs@.descriptor_ok(f));
        assert(fs@.is_file_in_dir(fd, name@, f));
    }
}

/// A filesystem starts empty, and its limits are those that were chosen last.
pub proof fn law_limits_are_chosen(
    new: CapFs,
    fs: CapFs,
    limits: FilesystemLimits,
    limited: CapFs,
    told: &FilesystemLimits,
)
    requires
        call_ensures(CapFs::new, (), new),
        call_ensures(CapFs::with_limits, (fs, limits), limited),
        call_ensures(CapFs::limits, (&limited,), told),
    ensures
        new@.descriptors.dom() =~= Set::<u32>::empty(),
        new@.preopens.dom() =~= Set::<u32>::empty(),
        limited@ == (FsView { limits, ..fs@ }),
        *told == limits,
{
}

/// Once a mount was dealt with, whether or not it could be cleared, everything
/// that was opened below it is gone, with its streams, and nothing else is; the
/// failure, where there was one, is reported.
pub proof fn law_cleared_mounts_are_concluded(
    fs: &mut CapFs,
    cleanup: Cleanup,
    r: Result<(), FsError>,
    fd: u32,
)
    requires
        old(fs).wf(),
        call_ensures(CapFs::mount_cleared, (fs, cleanup), r),
    ensures
        r is Ok <==> cleanup@.failure is None,
        r matches Err(e) ==> cleanup@.failure == Some(e@),
        ({
            let before = old(fs)@;
            let after = final(fs)@;
            let entry = before.descriptors[fd];
            let stays = |d: u32|
                before.descriptors.contains_key(d) && (before.descriptors[d].is_preopen
                    || before.descriptors[d].root_fd != cleanup.mount());
            &&& after.preopens == before.preopens
            &&& after.budget == before.budget
            &&& after.limits == before.limits
            &&& after.descriptors.contains_key(fd) <==> stays(fd)
            &&& after.descriptors.contains_key(fd) ==> after.descriptors[fd] == entry
            &&& after.streams.contains_key(fd) <==> before.streams.contains_key(fd) && stays(
                before.streams[fd].file_fd,
            )
            &&& after.streams.contains_key(fd) ==> after.streams[fd] == before.streams[fd]
            &&& after.dir_streams.contains_key(fd) <==> before.dir_streams.contains_key(fd)
                && stays(before.dir_streams[fd].dir_fd)
            &&& after.dir_streams.contains_key(fd) ==> after.dir_streams[fd]
                == before.dir_streams[fd]
        }),
{
    let before = old(fs)@;
    let gone = before.opened_below(cleanup.mount());
    assert(before.streams_on(gone).contains(fd) <==> before.streams.contains_key(fd)
        && gone.contains(before.streams[fd].file_fd));
    assert(before.dir_streams_on(gone).contains(fd) <==> before.dir_streams.contains_key(fd)
        && gone.contains(before.dir_streams[fd].dir_fd));
    if before.streams.contains_key(fd) {
        assert(before.stream_ok(fd));
    }
    if before.dir_streams.contains_key(fd) {
        assert(before.dir_stream_ok(fd));
    }
}

/// A sweep takes its mounts one after the other, and stops at the first that
/// could not be cleared.
pub proof fn law_sweeps_go_on(
    fs: CapFs,
    sweep: Sweep,
    due: Option<Cleanup>,
    sweeping: &mut CapFs,
    swept: &mut Sweep,
    cleanup: Cleanup,
)
    requires
        call_ensures(CapFs::next_mount, (&fs, &sweep), due),
        call_ensures(CapFs::mount_swept, (sweeping, swept, cleanup), ()),
    ensures
        due is Some <==> sweep@.failure is None && sweep@.next < sweep@.mounts.len(),
        due matches Some(c) ==> {
            let fd = sweep@.mounts[sweep@.next as int];
            &&& c.mount() == fd
            &&& c.directory() == fs@.preopens[fd].dir
            &&& c@.action is List
            &&& c@.entries == 0
            &&& c@.max_entries == fs@.limits.max_cleanup_entries
            &&& c@.max_depth == fs@.limits.max_recursive_depth
        },
        final(swept)@.mounts == old(swept)@.mounts,
        final(swept)@.next == old(swept)@.next + 1,
        final(swept)@.failure == cleanup@.failure,
        final(sweeping)@ == old(sweeping)@.mount_cleared(cleanup.mount()),
{
}

/// A request to open is for the path that was named, below the directory that it
/// was named for, and asks for just what the flags ask for; it is refused only
/// where the path leads nowhere or a change is asked for that is not granted.
/// Without flags for the path, a final symbolic link is followed.
pub proof fn law_what_is_asked_to_open(
    fs: CapFs,
    dir_fd: u32,
    path: &str,
    path_flags: PathFlags,
    flags: OpenFlags,
    r: Result<PendingOpen, FsError>,
    plain: Result<PendingOpen, FsError>,
    target: &Target,
    follows: bool,
)
    requires
        fs.wf(),
        call_ensures(CapFs::open_at_with_path_flags, (&fs, dir_fd, path, path_flags, flags), r),
        call_ensures(CapFs::open_at, (&fs, dir_fd, path, flags), plain),
        r matches Ok(op) ==> call_ensures(PendingOpen::target, (&op,), target),
        r matches Ok(op) ==> call_ensures(PendingOpen::follows_symlinks, (&op,), follows),
    ensures
        ({
            let dir = fs@.descriptors[dir_fd].directory->0;
            let changes = flags.creates() || flags.truncates();
            &&& r is Ok <==> fs@.resolved(dir_fd, path@) is Ok && (changes
                ==> dir.grants().mutates())
            &&& r matches Err(e) ==> match fs@.resolved(dir_fd, path@) {
                Err(error) => e@ == error,
                Ok(_) => e is NotPermitted,
            }
            &&& r is Ok ==> {
                &&& target@.dir == dir
                &&& target@.path == parsed(path@)->0
                &&& follows <==> path_flags is SYMLINK_FOLLOW
            }
            &&& plain is Ok <==> r is Ok
            &&& plain matches Ok(op) ==> {
                &&& op@.follows
                &&& op@.target.dir == dir
                &&& op@.target.path == parsed(path@)->0
                &&& op@.creates == flags.creates()
                &&& op@.truncates == flags.truncates()
            }
        }),
{
    law_open_requests_are_checked(fs@, dir_fd, path@, path_flags, flags);
    law_open_requests_are_checked(fs@, dir_fd, path@, PathFlags::SYMLINK_FOLLOW, flags);
}

/// Asking for the metadata of a path is refused only where the path leads nowhere
/// or the directory may not be read. Without flags, a final symbolic link is
/// followed.
pub proof fn law_what_is_asked_to_look_up(
    fs: CapFs,
    dir_fd: u32,
    path: &str,
    path_flags: PathFlags,
    r: Result<PendingStat, FsError>,
    plain: Result<PendingStat, FsError>,
)
    requires
        fs.wf(),
        call_ensures(CapFs::stat_at_with_path_flags, (&fs, dir_fd, path, path_flags), r),
        call_ensures(CapFs::stat_at, (&fs, dir_fd, path), plain),
    ensures
        r is Ok <==> fs@.resolved(dir_fd, path@) is Ok
            && fs@.descriptors[dir_fd].directory->0.grants().reads(),
        plain is Ok <==> r is Ok,
        r matches Ok(op) ==> {
            &&& op@.target.dir == fs@.descriptors[dir_fd].directory->0
            &&& op@.target.path == parsed(path@)->0
            &&& op@.follows == path_flags.follows()
        },
        plain matches Ok(op) ==> {
            &&& op@.target.dir == fs@.descriptors[dir_fd].directory->0
            &&& op@.target.path == parsed(path@)->0
            &&& op@.follows
        },
{
    law_stat_requests_are_checked(fs@, dir_fd, path@, path_flags);
    law_stat_requests_are_checked(fs@, dir_fd, path@, PathFlags::SYMLINK_FOLLOW);
}

/// A rename leads from one name to the other. It is asked for exactly where both
/// directories may be changed and belong to one mount; before anything moves,
/// the source is looked up, and the destination where it can only be a directory.
pub proof fn law_renames_are_asked_for(
    fs: CapFs,
    from_fd: u32,
    from: &str,
    to_fd: u32,
    to: &str,
    r: Result<Rename, FsError>,
    op: Rename,
    found: HostMetadata,
    probed: Result<Rename, FsError>,
    stage: RenameStage,
    source: &Target,
    destination: &Target,
)
    requires
        fs.wf(),
        call_ensures(CapFs::rename_at, (&fs, from_fd, from, to_fd, to), r),
        call_ensures(Rename::probed, (op, Ok(found)), probed),
        call_ensures(Rename::stage, (&op,), stage),
        call_ensures(Rename::source, (&op,), source),
        call_ensures(Rename::destination, (&op,), destination),
        op@.stage !is Move,
    ensures
        ({
            let reached = fs@.resolved(from_fd, from@) is Ok && fs@.resolved(to_fd, to@) is Ok;
            let granted = fs@.descriptors[from_fd].directory->0.grants().mutates()
                && fs@.descriptors[to_fd].directory->0.grants().mutates();
            let together = fs@.descriptors[from_fd].root_fd == fs@.descriptors[to_fd].root_fd;
            &&& r is Ok <==> reached && granted && together
            &&& r matches Err(e) ==> (reached && granted ==> e is CrossDevice)
            &&& r matches Err(e) ==> (reached && !granted ==> e is NotPermitted)
            &&& r matches Ok(asked) ==> {
                &&& asked@.stage is ProbeSource
                &&& asked@.source.target.dir == fs@.descriptors[from_fd].directory->0
                &&& asked@.source.target.path == parsed(from@)->0
                &&& asked@.destination.target.dir == fs@.descriptors[to_fd].directory->0
                &&& asked@.destination.target.path == parsed(to@)->0
                &&& asked@.source.root_fd == fs@.descriptors[from_fd].root_fd
                &&& asked@.source.root_path.components
                    == fs@.descriptors[from_fd].path.components + parsed(from@)->0.components
                &&& asked@.destination.root_path.components
                    == fs@.descriptors[to_fd].path.components + parsed(to@)->0.components
            }
        }),
        stage == op@.stage,
        source@ == op@.source.target,
        destination@ == op@.destination.target,
        ({
            let looked_up = if stage is ProbeSource {
                source@.path
            } else {
                destination@.path
            };
            &&& probed is Ok <==> (looked_up.requires_directory ==> found.is_dir)
            &&& probed matches Err(e) ==> e is NotDirectory
            &&& probed matches Ok(next) ==> {
                &&& next@.source == op@.source
                &&& next@.destination == op@.destination
                &&& next@.stage is ProbeDestination <==> stage is ProbeSource
                    && destination@.path.requires_directory
                &&& next@.stage !is ProbeSource
            }
        }),
{
}

/// A name that can only be a directory's is not unlinked: what the host found
/// there says which error that is.
pub proof fn law_unlinking_directories_is_refused(
    reply: Result<HostMetadata, HostError>,
    e: FsError,
)
    requires
        call_ensures(unlink_refused, (reply,), e),
    ensures
        reply matches Ok(found) ==> if found.is_dir {
            e is IsDirectory
        } else {
            e is NotDirectory
        },
        reply matches Err(failure) ==> e@ == failure.classify(),
{
}

/// What the host reads by a guest path, and writes below `/output`, is named
/// exactly: the mount by the first component, and the file by the rest.
pub proof fn law_host_files_are_asked_for(
    fs: CapFs,
    root: Seq<char>,
    rest: Seq<char>,
    reading: &str,
    read: Result<Target, GuestFileError>,
    writing: &str,
    write: Result<Target, OutputPathError>,
)
    requires
        fs.wf(),
        !root.contains('/'),
        reading@ == "/"@ + root + "/"@ + rest,
        writing@ == "/output/"@ + rest,
        call_ensures(CapFs::read_guest_file, (&fs, reading), read),
        call_ensures(CapFs::write_output_path, (&fs, writing), write),
    ensures
        ({
            let mount = fs@.mount_at("/"@ + root);
            let dir = fs@.preopens[mount->0].dir;
            let output = fs@.preopens[fs@.output_fd->0].dir;
            let file = parsed(rest)->0;
            let names_file = parsed(rest) is Some && !file.requires_directory;
            &&& read is Ok <==> names_file && mount is Some && dir.grants().reads()
                && dir.file_grants().reads()
            &&& read matches Ok(target) ==> target@.dir == dir && target@.path == file
            &&& write is Ok <==> names_file && fs@.output_fd is Some && output.grants().mutates()
                && output.file_grants().writes()
            &&& write matches Ok(target) ==> target@.dir == output && target@.path == file
        }),
{
    law_guest_files_are_checked(fs@, root, rest);
    law_output_paths_are_checked(fs@, writing@);
    reveal_strlit("/");
    reveal_strlit("output");
    reveal_strlit("/output/");
    assert("/"@ + "output"@ + "/"@ =~= "/output/"@);
    assert(writing@.take(8) =~= "/output/"@);
    assert(writing@.skip(8) =~= rest);
}

/// A directory is mounted for guests under the next number, with the capability,
/// the path and the lifetime that it was given, or refused where there is no
/// room.
pub proof fn law_directories_are_registered(
    fs: &mut CapFs,
    dir: Dir,
    guest_path: &str,
    lifetime: MountLifetime,
    r: Result<u32, FsError>,
)
    requires
        call_ensures(CapFs::register_preopen, (fs, dir, guest_path, lifetime), r),
    ensures
        ({
            let before = old(fs)@;
            let after = final(fs)@;
            let room = before.descriptors.len() < before.limits.max_open_descriptors;
            &&& r is Ok <==> room && before.next_handle < u32::MAX
            &&& r matches Err(e) ==> {
                &&& after == before
                &&& e is Quota <==> !room
            }
            &&& r matches Ok(fd) ==> {
                let mount = after.preopens[fd];
                let entry = after.descriptors[fd];
                &&& fd == before.next_handle
                &&& after.next_handle == fd + 1
                &&& after.preopens == before.preopens.insert(fd, mount)
                &&& after.descriptors == before.descriptors.insert(fd, entry)
                &&& mount.dir == dir
                &&& mount.guest_path == guest_path@
                &&& mount.lifetime == lifetime
                &&& mount.host_root is None
                &&& entry.root_fd == fd
                &&& entry.path.components.len() == 0
                &&& entry.descriptor_type == DescriptorType::Directory
                &&& entry.is_preopen
                &&& entry.parent_fd is None
                &&& entry.directory == Some(dir)
                &&& after.streams == before.streams
                &&& after.dir_streams == before.dir_streams
                &&& after.budget == before.budget
                &&& after.limits == before.limits
                &&& after.output_fd == before.output_fd
            }
        }),
{
}

/// Mounts, capabilities, rights and host paths are told as the tables hold them.
pub proof fn law_what_is_told(
    fs: CapFs,
    fd: u32,
    guest_path: &str,
    perms: FilePerms,
    mount: Option<u32>,
    has: bool,
    dir: Option<&Dir>,
    output: Option<&PathBuf>,
    temp: Option<&PathBuf>,
    target: Target,
    target_dir: &Dir,
    target_path: &str,
)
    requires
        fs.wf(),
        target.wf(),
        call_ensures(CapFs::mount_by_guest_path, (&fs, guest_path), mount),
        call_ensures(CapFs::file_has_perms, (&fs, fd, perms), has),
        call_ensures(CapFs::get_dir, (&fs, fd), dir),
        call_ensures(CapFs::output_path, (&fs,), output),
        call_ensures(CapFs::temp_path, (&fs,), temp),
        call_ensures(Target::dir, (&target,), target_dir),
        call_ensures(Target::path, (&target,), target_path),
    ensures
        match mount {
            Some(m) => {
                &&& fs@.preopens.contains_key(m)
                &&& fs@.preopens[m].guest_path == guest_path@
                &&& forall|other: u32| #[trigger]
                    fs@.preopens.contains_key(other) && fs@.preopens[other].guest_path
                        == guest_path@ ==> m <= other
            },
            None => !exists|m: u32| #[trigger]
                fs@.preopens.contains_key(m) && fs@.preopens[m].guest_path == guest_path@,
        },
        has <==> {
            let granted = fs@.preopens[fs@.descriptors[fd].root_fd].dir.file_grants();
            &&& fs@.descriptors.contains_key(fd)
            &&& fs@.descriptors[fd].descriptor_type is RegularFile
            &&& perms.reads() ==> granted.reads()
            &&& perms.writes() ==> granted.writes()
        },
        dir is Some <==> fs@.descriptors.contains_key(fd) && fs@.descriptors[fd].directory is Some,
        dir matches Some(d) ==> fs@.descriptors[fd].directory == Some(*d),
        output is Some <==> fs@.output_path is Some,
        output matches Some(p) ==> fs@.output_path == Some(*p),
        temp is Some <==> fs@.temp_path is Some,
        temp matches Some(p) ==> fs@.temp_path == Some(*p),
        *target_dir == target@.dir,
        target_path@ == join(target@.path.components, "/"@),
{
    law_mounts_are_found_by_their_path(fs@, guest_path@);
}

} // verus!
