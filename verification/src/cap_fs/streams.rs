//! File streams.
use vstd::prelude::*;

use super::files::{amount_to_read, least, read_amount, WriteView};
use super::target::TargetView;
use super::{CapFs, Target, WriteRequest};
use crate::error::{checked, host_outcome, outcome, FsError, FsErrorView, HostError};
use crate::handles::handles_exhausted;
use crate::model::{lemma_stream_moved, lemma_stream_opened, FsView, StreamState};
use crate::perms::{FilePerms, HostMetadata};

verus! {

broadcast use vstd::std_specs::btree::group_btree_axioms;

/// A checked request to read from a stream.
#[verifier::ext_equal]
pub struct StreamView {
    pub stream_id: u32,
    pub target: TargetView,
    pub offset: u64,
    pub len: u64,
}

impl StreamView {
    /// How many bytes are left in a file of the given size. A stream past the
    /// end of its file cannot be read.
    pub open spec fn remaining(self, reply: Result<u64, HostError>) -> Result<u64, FsErrorView> {
        match reply {
            Err(e) => Err(e.classify()),
            Ok(size) => if self.offset >= size {
                Err(FsError::Io("stream read past end of file"@))
            } else {
                Ok((size - self.offset) as u64)
            },
        }
    }
}

/// A stream offset after `amount` bytes, which stops at the largest offset.
pub open spec fn advanced(offset: u64, amount: nat) -> u64 {
    if offset + amount <= u64::MAX {
        (offset + amount) as u64
    } else {
        u64::MAX
    }
}

impl FsView {
    /// Opens a stream on an open file: the state afterwards, and its handle.
    pub open spec fn open_stream(self, file_fd: u32, offset: u64, is_write: bool) -> (
        FsView,
        Result<u32, FsErrorView>,
    ) {
        if !self.is_file(file_fd) {
            (self, Err(FsError::BadDescriptor))
        } else if is_write && !self.root_of(file_fd).file_grants().writes() {
            (self, Err(FsError::NotPermitted))
        } else if !is_write && !self.root_of(file_fd).file_grants().reads() {
            (self, Err(FsError::NotPermitted))
        } else if !self.has_stream_room() {
            (self, Err(FsError::Quota))
        } else if !self.has_handle() {
            (self, Err(handles_exhausted()))
        } else {
            (
                self.stream_opened(StreamState { file_fd, offset, is_write }),
                Ok(self.next_handle),
            )
        }
    }

    /// Checks a request to read from a stream.
    pub open spec fn stream_request(self, stream_id: u32, len: u64) -> Result<
        StreamView,
        FsErrorView,
    > {
        if !self.streams.contains_key(stream_id) {
            Err(FsError::BadDescriptor)
        } else {
            let stream = self.streams[stream_id];
            Ok(
                StreamView {
                    stream_id,
                    target: self.file_target(stream.file_fd),
                    offset: stream.offset,
                    len,
                },
            )
        }
    }

    /// The state after a stream moved on by `amount` bytes.
    pub open spec fn stream_advanced(self, stream_id: u32, amount: nat) -> FsView {
        let stream = self.streams[stream_id];
        FsView {
            streams: self.streams.insert(
                stream_id,
                StreamState { offset: advanced(stream.offset, amount), ..stream },
            ),
            ..self
        }
    }

    /// Concludes a read from a stream: the state afterwards, and the bytes. A
    /// read that yields nothing is an error, and the stream stays where it is.
    pub open spec fn stream_got(self, stream_id: u32, reply: Result<Vec<u8>, HostError>) -> (
        FsView,
        Result<Vec<u8>, FsErrorView>,
    ) {
        match reply {
            Err(e) => (self, Err(e.classify())),
            Ok(data) => if data@.len() == 0 {
                (self, Err(FsError::Io("stream read returned no data"@)))
            } else if !self.streams.contains_key(stream_id) {
                (self, Err(FsError::BadDescriptor))
            } else {
                (self.stream_advanced(stream_id, data@.len()), Ok(data))
            },
        }
    }

    /// Checks a request to write to a stream: the state afterwards, and the
    /// write that is due.
    pub open spec fn stream_write_request(self, stream_id: u32, len: u64) -> (
        FsView,
        Result<WriteView, FsErrorView>,
    ) {
        if !self.streams.contains_key(stream_id) {
            (self, Err(FsError::BadDescriptor))
        } else {
            let stream = self.streams[stream_id];
            self.write_request(stream.file_fd, stream.offset, len)
        }
    }
}

/// A request to read from a stream. The host is to open the file and tell its
/// size.
pub struct StreamRequest {
    stream_id: u32,
    target: Target,
    offset: u64,
    len: u64,
}

impl View for StreamRequest {
    type V = StreamView;

    closed spec fn view(&self) -> StreamView {
        StreamView {
            stream_id: self.stream_id,
            target: self.target@,
            offset: self.offset,
            len: self.len,
        }
    }
}

impl StreamRequest {
    pub closed spec fn wf(self) -> bool {
        self.target.wf()
    }

    /// The file that the host is to open.
    pub fn target(&self) -> (r: &Target)
        requires
            self.wf(),
        ensures
            r.wf(),
            r@ == self@.target,
    {
        &self.target
    }

    /// Decides what can be read of a file of the given size.
    pub fn sized(self, reply: Result<u64, HostError>) -> (r: Result<StreamPlan, FsError>)
        ensures
            outcome(r) == match self@.remaining(reply) {
                Ok(remaining) => Ok::<_, FsErrorView>(
                    StreamPlan {
                        stream_id: self@.stream_id,
                        offset: self@.offset,
                        wanted: least(self@.len, remaining),
                    },
                ),
                Err(e) => Err(e),
            },
    {
        let file_size = match checked(reply) {
            Ok(size) => size,
            Err(e) => return Err(e),
        };
        if self.offset >= file_size {
            return Err(FsError::Io("stream read past end of file".to_owned()));
        }
        let wanted = super::files::smaller(self.len, file_size - self.offset);
        Ok(StreamPlan { stream_id: self.stream_id, offset: self.offset, wanted })
    }
}

/// A read from a stream: where the host is to seek to, and how many bytes are
/// wanted of the file from there on.
#[derive(Debug, Clone, Copy, PartialEq, Eq, Structural)]
pub struct StreamPlan {
    pub stream_id: u32,
    pub offset: u64,
    pub wanted: u64,
}

/// A request to write to a stream: the write that is due on its file.
pub struct StreamWrite {
    pub stream_id: u32,
    pub request: WriteRequest,
}

impl CapFs {
    fn create_stream(&mut self, file_fd: u32, offset: u64, is_write: bool) -> (r: Result<
        u32,
        FsError,
    >)
        requires
            old(self).wf(),
        ensures
            final(self).wf(),
            final(self)@ == old(self)@.open_stream(file_fd, offset, is_write).0,
            outcome(r) == old(self)@.open_stream(file_fd, offset, is_write).1,
    {
        if !self.is_file(file_fd) {
            return Err(FsError::BadDescriptor);
        }
        let perms = if is_write {
            FilePerms::WRITE
        } else {
            FilePerms::READ
        };
        if !self.file_has_perms(file_fd, perms) {
            return Err(FsError::NotPermitted);
        }
        if let Err(e) = self.ensure_stream_capacity() {
            return Err(e);
        }
        let id = match self.alloc_handle() {
            Ok(id) => id,
            Err(e) => return Err(e),
        };
        let stream = StreamState { file_fd, offset, is_write };
        proof {
            lemma_stream_opened(old(self)@, stream);
        }
        self.streams.insert(id, stream);
        assert(self@ =~= old(self)@.stream_opened(stream));
        Ok(id)
    }

    /// Opens a stream that reads an open file from `offset` on.
    pub fn create_read_stream(&mut self, file_fd: u32, offset: u64) -> (r: Result<u32, FsError>)
        requires
            old(self).wf(),
        ensures
            final(self).wf(),
            final(self)@ == old(self)@.open_stream(file_fd, offset, false).0,
            outcome(r) == old(self)@.open_stream(file_fd, offset, false).1,
    {
        self.create_stream(file_fd, offset, false)
    }

    /// Opens a stream that writes an open file from `offset` on.
    pub fn create_write_stream(&mut self, file_fd: u32, offset: u64) -> (r: Result<u32, FsError>)
        requires
            old(self).wf(),
        ensures
            final(self).wf(),
            final(self)@ == old(self)@.open_stream(file_fd, offset, true).0,
            outcome(r) == old(self)@.open_stream(file_fd, offset, true).1,
    {
        self.create_stream(file_fd, offset, true)
    }

    /// Asks for a stream that writes at the end of an open file. The host is
    /// to look the file up; [`append_sized`](Self::append_sized) opens the
    /// stream.
    pub fn create_append_stream(&self, file_fd: u32) -> (r: Result<Target, FsError>)
        requires
            self.wf(),
        ensures
            if self@.is_file(file_fd) {
                r matches Ok(target) && target.wf() && target@ == self@.file_target(file_fd)
            } else {
                r matches Err(e) && e@ == FsErrorView::BadDescriptor
            },
    {
        match self.file_size(file_fd) {
            Some(target) => Ok(target),
            None => Err(FsError::BadDescriptor),
        }
    }

    /// Opens a stream at the end of a file that the host looked up. A file
    /// that the host cannot find is no longer a valid descriptor.
    pub fn append_sized(&mut self, file_fd: u32, reply: Result<HostMetadata, HostError>) -> (r:
        Result<u32, FsError>)
        requires
            old(self).wf(),
        ensures
            final(self).wf(),
            match reply {
                Ok(found) => final(self)@ == old(self)@.open_stream(file_fd, found.len, true).0
                    && outcome(r) == old(self)@.open_stream(file_fd, found.len, true).1,
                Err(_) => final(self)@ == old(self)@ && outcome(r) == Err::<u32, _>(
                    FsErrorView::BadDescriptor,
                ),
            },
    {
        match super::stat::file_size_replied(reply) {
            Some(size) => self.create_write_stream(file_fd, size),
            None => Err(FsError::BadDescriptor),
        }
    }

    /// Asks to read up to `len` bytes from a stream.
    pub fn stream_read(&self, stream_id: u32, len: u64) -> (r: Result<StreamRequest, FsError>)
        requires
            self.wf(),
        ensures
            match self@.stream_request(stream_id, len) {
                Ok(view) => r matches Ok(op) && op.wf() && op@ == view,
                Err(error) => r matches Err(e) && e@ == error,
            },
    {
        let stream = match self.streams.get(&stream_id) {
            Some(stream) => *stream,
            None => return Err(FsError::BadDescriptor),
        };
        assert(self@.stream_ok(stream_id));
        match self.file_parts(stream.file_fd) {
            Ok((root, path)) => Ok(
                StreamRequest {
                    stream_id,
                    target: Target::new(root.clone(), path.clone()),
                    offset: stream.offset,
                    len,
                },
            ),
            Err(e) => Err(e),
        }
    }

    /// Charges a read from a stream once the host has found its place: how
    /// many bytes the host is to read.
    pub fn stream_sought(&mut self, plan: &StreamPlan, reply: Result<(), HostError>) -> (r: Result<
        usize,
        FsError,
    >)
        requires
            old(self).wf(),
        ensures
            final(self).wf(),
            match host_outcome(reply) {
                Err(e) => outcome(r) == Err::<usize, _>(e) && final(self)@ == old(self)@,
                Ok(_) => {
                    let amount = read_amount(
                        plan.wanted,
                        plan.wanted,
                        old(self)@.limits.max_single_read_bytes,
                    );
                    match old(self)@.reads_charged(amount) {
                        Some(after) => r == Ok::<usize, FsError>(amount as usize) && final(self)@
                            == after,
                        None => outcome(r) == Err::<usize, _>(FsErrorView::Quota) && final(self)@
                            == old(self)@,
                    }
                },
            },
    {
        if let Err(e) = checked(reply) {
            return Err(e);
        }
        let to_read = amount_to_read(
            plan.wanted,
            plan.wanted,
            self.limits.max_single_read_bytes,
        );
        if let Err(e) = self.charge_read_bytes(to_read) {
            return Err(e);
        }
        Ok(to_read as usize)
    }

    /// Concludes a read from a stream, which moves on by what was read.
    pub fn stream_got(&mut self, stream_id: u32, reply: Result<Vec<u8>, HostError>) -> (r: Result<
        Vec<u8>,
        FsError,
    >)
        requires
            old(self).wf(),
        ensures
            final(self).wf(),
            final(self)@ == old(self)@.stream_got(stream_id, reply).0,
            outcome(r) == old(self)@.stream_got(stream_id, reply).1,
    {
        let data = match checked(reply) {
            Ok(data) => data,
            Err(e) => return Err(e),
        };
        if data.len() == 0 {
            return Err(FsError::Io("stream read returned no data".to_owned()));
        }
        match self.stream_moved(stream_id, data.len() as u64) {
            Ok(_) => Ok(data),
            Err(e) => Err(e),
        }
    }

    /// Moves a stream on.
    fn stream_moved(&mut self, stream_id: u32, amount: u64) -> (r: Result<(), FsError>)
        requires
            old(self).wf(),
        ensures
            final(self).wf(),
            if old(self)@.streams.contains_key(stream_id) {
                r is Ok && final(self)@ == old(self)@.stream_advanced(stream_id, amount as nat)
            } else {
                outcome(r) == Err::<(), _>(FsErrorView::BadDescriptor) && final(self)@
                    == old(self)@
            },
    {
        let stream = match self.streams.get(&stream_id) {
            Some(stream) => *stream,
            None => return Err(FsError::BadDescriptor),
        };
        let offset = stream.offset.saturating_add(amount);
        let moved = StreamState { file_fd: stream.file_fd, offset, is_write: stream.is_write };
        proof {
            lemma_stream_moved(old(self)@, stream_id, moved);
        }
        self.streams.insert(stream_id, moved);
        assert(self@ =~= old(self)@.stream_advanced(stream_id, amount as nat));
        Ok(())
    }

    /// Asks to write `buffer` to a stream. The bytes are charged.
    pub fn stream_write(&mut self, stream_id: u32, buffer: &[u8]) -> (r: Result<
        StreamWrite,
        FsError,
    >)
        requires
            old(self).wf(),
        ensures
            final(self).wf(),
            final(self)@ == old(self)@.stream_write_request(stream_id, buffer@.len() as u64).0,
            match old(self)@.stream_write_request(stream_id, buffer@.len() as u64).1 {
                Ok(view) => r matches Ok(op) && op.stream_id == stream_id && op.request.wf()
                    && op.request@ == view,
                Err(error) => r matches Err(e) && e@ == error,
            },
    {
        let stream = match self.streams.get(&stream_id) {
            Some(stream) => *stream,
            None => return Err(FsError::BadDescriptor),
        };
        match self.write_file(stream.file_fd, stream.offset, buffer) {
            Ok(request) => Ok(StreamWrite { stream_id, request }),
            Err(e) => Err(e),
        }
    }

    /// Concludes a write to a stream, which moves on by what was written.
    pub fn stream_wrote(&mut self, stream_id: u32, written: u64) -> (r: Result<u64, FsError>)
        requires
            old(self).wf(),
        ensures
            final(self).wf(),
            if old(self)@.streams.contains_key(stream_id) {
                r == Ok::<u64, FsError>(written) && final(self)@ == old(self)@.stream_advanced(
                    stream_id,
                    written as nat,
                )
            } else {
                outcome(r) == Err::<u64, _>(FsErrorView::BadDescriptor) && final(self)@
                    == old(self)@
            },
    {
        match self.stream_moved(stream_id, written) {
            Ok(_) => Ok(written),
            Err(e) => Err(e),
        }
    }
}

} // verus!
