//! What is written is read back.
//!
//! The laws are stated of a quiet host: one that does what is due, that nobody
//! else changes meanwhile, and on which no symbolic link lies along the paths.
use cap_std::fs::Dir as CapDir;
use vstd::prelude::*;

use super::files::{least, read_amount, WritePlan, WriteView};
use super::output::GuestFileReply;
use super::target::TargetView;
use crate::error::{mount_point, FsErrorView, GuestFileError, HostError, OutputPathError};
use crate::model::FsView;
use crate::perms::HostMetadata;
use crate::text::{begins_with, lemma_span_until, span_until};

verus! {

/// The files of a quiet host: what each path below a directory holds.
#[verifier::ext_equal]
pub struct QuietFiles {
    pub held: Map<(CapDir, Seq<Seq<char>>), Seq<u8>>,
}

impl QuietFiles {
    /// The file that a target stands for.
    pub open spec fn place(target: TargetView) -> (CapDir, Seq<Seq<char>>) {
        (target.dir.host(), target.path.components)
    }

    /// Whether there is a file at the target.
    pub open spec fn has(self, target: TargetView) -> bool {
        self.held.contains_key(QuietFiles::place(target))
    }

    /// What the file at the target holds.
    pub open spec fn contents(self, target: TargetView) -> Seq<u8> {
        self.held[QuietFiles::place(target)]
    }

    /// The files after the one at the target was created, or replaced whole.
    pub open spec fn holding(self, target: TargetView, contents: Seq<u8>) -> QuietFiles {
        QuietFiles { held: self.held.insert(QuietFiles::place(target), contents) }
    }

    /// Whether the files are the same but for the one at the target.
    pub open spec fn differs_only_at(self, other: QuietFiles, target: TargetView) -> bool {
        self.held.remove(QuietFiles::place(target)) == other.held.remove(
            QuietFiles::place(target),
        )
    }

    /// What is replied where the file at the target is to be opened and sized.
    pub open spec fn opened(self, target: TargetView) -> GuestFileReply {
        if self.has(target) {
            GuestFileReply::Size(self.contents(target).len() as u64)
        } else {
            GuestFileReply::NotOpened
        }
    }
}

/// A file after a planned write: extended with zeros where it has to be, and
/// then with the bytes at their offset.
pub open spec fn patched(contents: Seq<u8>, plan: WritePlan, data: Seq<u8>) -> Seq<u8> {
    let extended = match plan.extend_to {
        Some(n) => Seq::new(
            n as nat,
            |i: int|
                if i < contents.len() {
                    contents[i]
                } else {
                    0u8
                },
        ),
        None => contents,
    };
    Seq::new(
        extended.len(),
        |i: int|
            if plan.offset <= i < plan.offset + data.len() {
                data[i - plan.offset]
            } else {
                extended[i]
            },
    )
}

/// The host writes a file below `/output`: the filesystem, the files and the
/// outcome afterwards, by what was found at the path.
pub open spec fn output_written(
    fs: FsView,
    files: QuietFiles,
    path: Seq<char>,
    data: Seq<u8>,
    found: Result<HostMetadata, HostError>,
) -> (FsView, QuietFiles, Result<(), OutputPathError>) {
    match fs.output_request(path) {
        Err(e) => (fs, files, Err(e)),
        Ok(target) => match fs.output_charged(found, data.len() as u64) {
            (after, Ok(_)) => (after, files.holding(target, data), Ok(())),
            (after, Err(e)) => (after, files, Err(e)),
        },
    }
}

/// The host reads a file by its guest path: the filesystem and the outcome
/// afterwards.
pub open spec fn guest_file_read(fs: FsView, files: QuietFiles, path: Seq<char>) -> (
    FsView,
    Result<Seq<u8>, GuestFileError>,
) {
    match fs.guest_file_request(path) {
        Err(e) => (fs, Err(e)),
        Ok(target) => match fs.guest_file_size(files.opened(target)) {
            (after, Ok(amount)) => (after, Ok(files.contents(target).take(amount as int))),
            (after, Err(e)) => (after, Err(e)),
        },
    }
}

impl FsView {
    /// Whether so many bytes may be read at once, and are left of the budget.
    pub open spec fn can_read(self, amount: nat) -> bool {
        &&& amount <= least(self.limits.max_single_read_bytes, usize::MAX as u64)
        &&& self.budget.bytes_read + amount <= self.limits.max_read_bytes_per_run
    }
}

/// Where `/output` is mounted once and may be read, whatever path the host may
/// write below it is a path that it may read, and both stand for the same file.
pub proof fn law_writing_and_reading_meet(fs: FsView, path: Seq<char>)
    requires
        fs.output_mounted_once(),
        fs.output_fd matches Some(fd) ==> fs.preopens[fd].dir.grants().reads()
            && fs.preopens[fd].dir.file_grants().reads(),
    ensures
        fs.output_request(path) matches Ok(target) ==> {
            &&& begins_with(path, "/output/"@)
            &&& fs.guest_file_request(path) == Ok::<_, GuestFileError>(target)
        },
{
    if let Ok(target) = fs.output_request(path) {
        let prefix = "/"@ + "output"@ + "/"@;
        reveal_strlit("/");
        reveal_strlit("output");
        reveal_strlit("/output");
        reveal_strlit("/output/");
        assert(prefix =~= "/output/"@);
        assert("/"@ + "output"@ =~= "/output"@);
        assert(path.take(1) =~= "/"@) by {
            assert(path.take(1)[0] == path.take(prefix.len() as int)[0]);
        }
        let tail = path.skip(prefix.len() as int);
        let rest = path.skip(1);
        assert(rest =~= "output"@ + seq!['/'] + tail) by {
            assert forall|i: int| 0 <= i < rest.len() implies rest[i] == ("output"@ + seq!['/']
                + tail)[i] by {
                if i < 7 {
                    assert(path.take(prefix.len() as int)[i + 1] == prefix[i + 1]);
                }
            }
        }
        lemma_span_until("output"@, '/', tail);
        assert(span_until(rest, '/') == 6);
        assert(rest.take(6) =~= "output"@);
        assert(rest.skip(7) =~= tail);
        assert(mount_point(path) == "/output"@);
        let fd = fs.output_fd->0;
        assert(fs.is_first_mount("/output"@, fd));
        let found = choose|fd: u32| fs.is_first_mount("/output"@, fd);
        assert(fs.is_first_mount("/output"@, found));
        assert(fs.preopens.contains_key(found));
    }
}

/// What the host writes below `/output` is what it reads back, whatever the
/// file held before, and no other file changes. This is so where `/output` is
/// mounted once and may be read, and the file is no larger than what one read
/// may hold and than what is left of the read budget.
pub proof fn law_output_is_read_back(
    fs: FsView,
    files: QuietFiles,
    path: Seq<char>,
    data: Seq<u8>,
    found: Result<HostMetadata, HostError>,
)
    requires
        fs.output_mounted_once(),
        fs.output_fd matches Some(fd) ==> fs.preopens[fd].dir.grants().reads()
            && fs.preopens[fd].dir.file_grants().reads(),
        fs.can_read(data.len()),
    ensures
        ({
            let (after, written, outcome) = output_written(fs, files, path, data, found);
            outcome is Ok ==> {
                &&& begins_with(path, "/output/"@)
                &&& guest_file_read(after, written, path).1 == Ok::<_, GuestFileError>(data)
                &&& written.differs_only_at(files, fs.output_request(path)->Ok_0)
            }
        }),
{
    let (after, written, outcome) = output_written(fs, files, path, data, found);
    if outcome is Ok {
        let target = fs.output_request(path)->Ok_0;
        assert(after.output_request(path) == fs.output_request(path));
        assert(after.output_mounted_once());
        law_writing_and_reading_meet(after, path);
        assert(written.contents(target) == data);
        assert(data.take(data.len() as int) =~= data);
        assert(written.held.remove(QuietFiles::place(target)) =~= files.held.remove(
            QuietFiles::place(target),
        ));
    }
}

/// A planned write leaves the bytes at their offset, keeps every other byte of
/// the file, and fills what lies between with zeros.
proof fn lemma_patched(
    contents: Seq<u8>,
    op: WriteView,
    data: Seq<u8>,
    extend_to: Option<u64>,
)
    requires
        contents.len() <= u64::MAX,
        op.len == data.len(),
        op.extension(Ok(contents.len() as u64)) == Ok::<_, FsErrorView>(extend_to),
    ensures
        ({
            let plan = WritePlan { offset: op.offset, len: op.len, extend_to };
            let after = patched(contents, plan, data);
            &&& op.offset + op.len <= after.len() <= u64::MAX
            &&& after.len() == contents.len() || after.len() == op.offset + op.len
            &&& after.len() >= contents.len()
            &&& after.subrange(op.offset as int, op.offset + op.len) == data
            &&& forall|i: int|
                #![trigger after[i]]
                0 <= i < after.len() && !(op.offset <= i < op.offset + op.len) ==> after[i]
                    == if i < contents.len() {
                    contents[i]
                } else {
                    0
                }
        }),
{
    let plan = WritePlan { offset: op.offset, len: op.len, extend_to };
    let after = patched(contents, plan, data);
    assert(after.subrange(op.offset as int, op.offset + op.len) =~= data);
}

/// What is written to an open file is what is read from it at the same offset.
/// Every other byte of the file stays as it was, and what lies between its old
/// end and the write is zero. This is so where the file may be read, and the
/// bytes are no more than what one read may hold and than what is left of the
/// read budget.
pub proof fn law_writes_are_read_back(
    fs: FsView,
    contents: Seq<u8>,
    fd: u32,
    offset: u64,
    data: Seq<u8>,
)
    requires
        contents.len() <= u64::MAX,
        fs.root_of(fd).file_grants().reads(),
        fs.can_read(data.len()),
    ensures
        ({
            let (after, request) = fs.write_request(fd, offset, data.len() as u64);
            request matches Ok(op) ==> {
                let decided = op.extension(Ok(contents.len() as u64));
                decided matches Ok(extend_to) ==> {
                    let plan = WritePlan { offset, len: op.len, extend_to };
                    let written = patched(contents, plan, data);
                    let read = after.read_request(fd, offset, data.len() as u64);
                    &&& read matches Ok(again) && again.target == op.target
                    &&& after.read_size(read->Ok_0, Ok(written.len() as u64)).1 == Ok::<
                        _,
                        FsErrorView,
                    >((offset, data.len() as u64))
                    &&& written.subrange(offset as int, offset + data.len()) == data
                    &&& forall|i: int|
                        #![trigger written[i]]
                        0 <= i < written.len() && !(offset <= i < offset + data.len())
                            ==> written[i] == if i < contents.len() {
                            contents[i]
                        } else {
                            0
                        }
                }
            }
        }),
{
    let (after, request) = fs.write_request(fd, offset, data.len() as u64);
    if let Ok(op) = request {
        if let Ok(extend_to) = op.extension(Ok(contents.len() as u64)) {
            lemma_patched(contents, op, data, extend_to);
        }
    }
}

/// What is written to one stream is what is read from another that stands at
/// the same place of the same file, where the bytes are no more than what one
/// read may hold and than what is left of the read budget.
pub proof fn law_stream_writes_are_read_back(
    fs: FsView,
    contents: Seq<u8>,
    writer: u32,
    reader: u32,
    data: Seq<u8>,
)
    requires
        contents.len() <= u64::MAX,
        data.len() > 0,
        fs.streams.contains_key(writer),
        fs.streams.contains_key(reader),
        fs.streams[reader].file_fd == fs.streams[writer].file_fd,
        fs.streams[reader].offset == fs.streams[writer].offset,
        fs.can_read(data.len()),
    ensures
        ({
            let offset = fs.streams[writer].offset;
            let (after, request) = fs.stream_write_request(writer, data.len() as u64);
            request matches Ok(op) ==> {
                let decided = op.extension(Ok(contents.len() as u64));
                decided matches Ok(extend_to) ==> {
                    let plan = WritePlan { offset, len: op.len, extend_to };
                    let written = patched(contents, plan, data);
                    let read = after.stream_request(reader, data.len() as u64);
                    &&& read matches Ok(again) && again.target == op.target && again.offset
                        == offset
                    &&& read->Ok_0.remaining(Ok(written.len() as u64)) matches Ok(remaining)
                        && least(data.len() as u64, remaining) == data.len()
                    &&& read_amount(
                        data.len() as u64,
                        data.len() as u64,
                        after.limits.max_single_read_bytes,
                    ) == data.len()
                    &&& after.reads_charged(data.len() as u64) is Some
                    &&& written.subrange(offset as int, offset + data.len()) == data
                }
            }
        }),
{
    let offset = fs.streams[writer].offset;
    let (after, request) = fs.stream_write_request(writer, data.len() as u64);
    if let Ok(op) = request {
        if let Ok(extend_to) = op.extension(Ok(contents.len() as u64)) {
            lemma_patched(contents, op, data, extend_to);
        }
    }
}

} // verus!
