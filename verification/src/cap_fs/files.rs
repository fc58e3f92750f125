//! Reading and writing open files.
use vstd::prelude::*;

use super::target::TargetView;
use super::{CapFs, Target};
use crate::error::{checked, host_outcome, outcome, FsError, FsErrorView, HostError};
use crate::model::FsView;
use crate::perms::FilePerms;

verus! {

/// The smaller of two numbers.
pub open spec fn least(a: u64, b: u64) -> u64 {
    if a <= b {
        a
    } else {
        b
    }
}

/// The smaller of two numbers.
pub fn smaller(a: u64, b: u64) -> (r: u64)
    ensures
        r == least(a, b),
{
    if a <= b {
        a
    } else {
        b
    }
}

/// How many bytes are read where `wanted` are asked for and `available` are
/// left in the file: no more than one read may hold.
pub open spec fn read_amount(wanted: u64, available: u64, single_read: u64) -> u64 {
    least(least(wanted, available), least(single_read, usize::MAX as u64))
}

/// How many bytes are read.
pub(super) fn amount_to_read(wanted: u64, available: u64, single_read: u64) -> (r: u64)
    ensures
        r == read_amount(wanted, available, single_read),
        r <= usize::MAX,
{
    smaller(smaller(wanted, available), smaller(single_read, usize::MAX as u64))
}

/// A checked request to read from a file.
#[verifier::ext_equal]
pub struct ReadView {
    pub target: TargetView,
    pub offset: u64,
    pub len: u64,
}

/// A checked request to write to a file.
#[verifier::ext_equal]
pub struct WriteView {
    pub target: TargetView,
    pub offset: u64,
    pub len: u64,
}

impl WriteView {
    /// What a write to a file of the given size needs: nothing, or that the
    /// file is extended to the given size. A write past the largest file
    /// position fails.
    pub open spec fn extension(self, reply: Result<u64, HostError>) -> Result<
        Option<u64>,
        FsErrorView,
    > {
        match reply {
            Err(e) => Err(e.classify()),
            Ok(size) => if self.offset + self.len > u64::MAX {
                Err(FsError::Overflow)
            } else if self.offset + self.len > size {
                Ok(Some((self.offset + self.len) as u64))
            } else {
                Ok(None)
            },
        }
    }
}

impl FsView {
    /// Checks a request to read from an open file.
    pub open spec fn read_request(self, fd: u32, offset: u64, len: u64) -> Result<
        ReadView,
        FsErrorView,
    > {
        if !self.is_file(fd) {
            Err(FsError::BadDescriptor)
        } else if !self.root_of(fd).file_grants().reads() {
            Err(FsError::NotPermitted)
        } else {
            Ok(ReadView { target: self.file_target(fd), offset, len })
        }
    }

    /// Decides what is read of a file of the given size: the state afterwards,
    /// where the read starts, and how many bytes it holds. The bytes are
    /// charged before they are read.
    pub open spec fn read_size(self, op: ReadView, reply: Result<u64, HostError>) -> (
        FsView,
        Result<(u64, u64), FsErrorView>,
    ) {
        match reply {
            Err(e) => (self, Err(e.classify())),
            Ok(size) => {
                let start = least(op.offset, size);
                let amount = read_amount(
                    op.len,
                    (size - start) as u64,
                    self.limits.max_single_read_bytes,
                );
                if amount == 0 {
                    (self, Ok((start, 0)))
                } else {
                    match self.reads_charged(amount) {
                        Some(after) => (after, Ok((start, amount))),
                        None => (self, Err(FsError::Quota)),
                    }
                }
            },
        }
    }

    /// Checks a request to write to an open file: the state afterwards, and
    /// the request. The bytes are charged before anything is written.
    pub open spec fn write_request(self, fd: u32, offset: u64, len: u64) -> (
        FsView,
        Result<WriteView, FsErrorView>,
    ) {
        if !self.is_file(fd) {
            (self, Err(FsError::BadDescriptor))
        } else if !self.root_of(fd).file_grants().writes() {
            (self, Err(FsError::NotPermitted))
        } else {
            match self.writes_charged(len) {
                Some(after) => (
                    after,
                    Ok(WriteView { target: self.file_target(fd), offset, len }),
                ),
                None => (self, Err(FsError::Quota)),
            }
        }
    }
}

/// A request to read from a file. The host is to open it and tell its size.
pub struct ReadRequest {
    target: Target,
    offset: u64,
    len: u64,
}

impl View for ReadRequest {
    type V = ReadView;

    closed spec fn view(&self) -> ReadView {
        ReadView { target: self.target@, offset: self.offset, len: self.len }
    }
}

impl ReadRequest {
    pub closed spec fn wf(self) -> bool {
        self.target.wf()
    }

    /// The file that the host is to open.
    pub fn target(&self) -> (r: &Target)
        requires
            self.wf(),
        ensures
            r.wf(),
            r@ == self@.target,
    {
        &self.target
    }
}

/// What is read of a file: where the read starts, how many bytes it may hold,
/// and the size of the file.
#[derive(Debug, Clone, Copy, PartialEq, Eq, Structural)]
pub struct ReadPlan {
    pub start: u64,
    pub amount: usize,
    pub file_size: u64,
}

impl ReadPlan {
    /// The bytes that were read, and whether they reach the end of the file.
    pub fn read(self, reply: Result<Vec<u8>, HostError>) -> (r: Result<(Vec<u8>, bool), FsError>)
        requires
            self.start <= self.file_size,
        ensures
            outcome(r) == match host_outcome(reply) {
                Ok(data) => Ok::<_, FsErrorView>((data, self.start + data@.len() >= self.file_size)),
                Err(e) => Err(e),
            },
    {
        match checked(reply) {
            Ok(data) => {
                let eof = data.len() as u64 >= self.file_size - self.start;
                Ok((data, eof))
            },
            Err(e) => Err(e),
        }
    }
}

/// What is due after the size of a file is known.
pub enum ReadStep {
    /// Nothing is left to read: no bytes, at the end of the file.
    Nothing,
    /// The host is to read.
    Read(ReadPlan),
}

/// A request to write to a file. The host is to open it for reading and
/// writing and tell its size.
pub struct WriteRequest {
    target: Target,
    offset: u64,
    len: u64,
}

impl View for WriteRequest {
    type V = WriteView;

    closed spec fn view(&self) -> WriteView {
        WriteView { target: self.target@, offset: self.offset, len: self.len }
    }
}

/// How a write is done: the file is first extended, where it has to be; then
/// the bytes are written at the offset.
#[derive(Debug, Clone, Copy, PartialEq, Eq, Structural)]
pub struct WritePlan {
    pub offset: u64,
    pub len: u64,
    pub extend_to: Option<u64>,
}

impl WritePlan {
    /// How many bytes were written.
    pub fn written(self, reply: Result<(), HostError>) -> (r: Result<u64, FsError>)
        ensures
            outcome(r) == match host_outcome(reply) {
                Ok(_) => Ok::<_, FsErrorView>(self.len),
                Err(e) => Err(e),
            },
    {
        match checked(reply) {
            Ok(_) => Ok(self.len),
            Err(e) => Err(e),
        }
    }
}

impl WriteRequest {
    pub closed spec fn wf(self) -> bool {
        self.target.wf()
    }

    /// The file that the host is to open.
    pub fn target(&self) -> (r: &Target)
        requires
            self.wf(),
        ensures
            r.wf(),
            r@ == self@.target,
    {
        &self.target
    }

    /// Decides how a file of the given size is written.
    pub fn sized(self, reply: Result<u64, HostError>) -> (r: Result<WritePlan, FsError>)
        ensures
            outcome(r) == match self@.extension(reply) {
                Ok(extend_to) => Ok::<_, FsErrorView>(
                    WritePlan { offset: self@.offset, len: self@.len, extend_to },
                ),
                Err(e) => Err(e),
            },
    {
        let file_size = match checked(reply) {
            Ok(size) => size,
            Err(e) => return Err(e),
        };
        match self.offset.checked_add(self.len) {
            Some(new_end) => {
                let extend_to = if new_end > file_size {
                    Some(new_end)
                } else {
                    None
                };
                Ok(WritePlan { offset: self.offset, len: self.len, extend_to })
            },
            None => Err(FsError::Overflow),
        }
    }
}

impl CapFs {
    /// Asks to read up to `len` bytes of an open file from `offset` on.
    pub fn read_file(&self, fd: u32, offset: u64, len: u64) -> (r: Result<ReadRequest, FsError>)
        requires
            self.wf(),
        ensures
            match self@.read_request(fd, offset, len) {
                Ok(view) => r matches Ok(op) && op.wf() && op@ == view,
                Err(error) => r matches Err(e) && e@ == error,
            },
    {
        match self.file_parts(fd) {
            Ok((root, path)) => {
                if !root.file_perms().contains(FilePerms::READ) {
                    return Err(FsError::NotPermitted);
                }
                Ok(ReadRequest { target: Target::new(root.clone(), path.clone()), offset, len })
            },
            Err(e) => Err(e),
        }
    }

    /// Decides what is read of a file of the given size, and charges it.
    pub fn read_sized(&mut self, op: ReadRequest, reply: Result<u64, HostError>) -> (r: Result<
        ReadStep,
        FsError,
    >)
        requires
            old(self).wf(),
        ensures
            final(self).wf(),
            final(self)@ == old(self)@.read_size(op@, reply).0,
            outcome(r) == match old(self)@.read_size(op@, reply).1 {
                Ok((start, amount)) => Ok::<_, FsErrorView>(
                    if amount == 0 {
                        ReadStep::Nothing
                    } else {
                        ReadStep::Read(
                            (ReadPlan { start, amount: amount as usize, file_size: reply->Ok_0 }),
                        )
                    },
                ),
                Err(e) => Err(e),
            },
            r matches Ok(ReadStep::Read(plan)) ==> plan.start <= plan.file_size,
    {
        let file_size = match checked(reply) {
            Ok(size) => size,
            Err(e) => return Err(e),
        };
        let start = smaller(op.offset, file_size);
        let to_read = amount_to_read(
            op.len,
            file_size - start,
            self.limits.max_single_read_bytes,
        );
        if to_read == 0 {
            return Ok(ReadStep::Nothing);
        }
        if let Err(e) = self.charge_read_bytes(to_read) {
            return Err(e);
        }
        Ok(ReadStep::Read(ReadPlan { start, amount: to_read as usize, file_size }))
    }

    /// Asks to write `buffer` to an open file at `offset`. The bytes are
    /// charged.
    pub fn write_file(&mut self, fd: u32, offset: u64, buffer: &[u8]) -> (r: Result<
        WriteRequest,
        FsError,
    >)
        requires
            old(self).wf(),
        ensures
            final(self).wf(),
            final(self)@ == old(self)@.write_request(fd, offset, buffer@.len() as u64).0,
            match old(self)@.write_request(fd, offset, buffer@.len() as u64).1 {
                Ok(view) => r matches Ok(op) && op.wf() && op@ == view,
                Err(error) => r matches Err(e) && e@ == error,
            },
    {
        let target = match self.file_parts(fd) {
            Ok((root, path)) => {
                if !root.file_perms().contains(FilePerms::WRITE) {
                    return Err(FsError::NotPermitted);
                }
                Target::new(root.clone(), path.clone())
            },
            Err(e) => return Err(e),
        };
        let len = buffer.len() as u64;
        if let Err(e) = self.charge_written_bytes(len) {
            return Err(e);
        }
        Ok(WriteRequest { target, offset, len })
    }
}

/// The smaller of two numbers is one of them, and neither is below it.
pub proof fn law_smaller(a: u64, b: u64, r: u64)
    requires
        call_ensures(smaller, (a, b), r),
    ensures
        r <= a,
        r <= b,
        r == a || r == b,
{
}

} // verus!
