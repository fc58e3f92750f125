//! Numbers for descriptors and streams.
use vstd::prelude::*;

use crate::error::FsError;

verus! {

/// First preopen fd (after 0–2 stdio).
pub const FIRST_PREOPEN_FD: u32 = 3;

/// The error reported once no handle number is left.
pub open spec fn handles_exhausted() -> FsError<Seq<char>> {
    FsError::Io("file descriptor handle space exhausted"@)
}

/// Hands out handle numbers in ascending order.
#[derive(Clone, Copy, Debug, PartialEq, Eq, Structural)]
pub struct HandleAllocator {
    pub next_handle: u32,
}

impl HandleAllocator {
    /// Takes the next number, or fails where its successor does not fit.
    pub fn alloc_handle(&mut self) -> (r: Result<u32, FsError>)
        ensures
            if old(self).next_handle < u32::MAX {
                r == Ok::<u32, FsError>(old(self).next_handle) && final(self).next_handle
                    == old(self).next_handle + 1
            } else {
                (r matches Err(e) && e@ == handles_exhausted()) && *final(self) == *old(self)
            },
    {
        let id = self.next_handle;
        match self.next_handle.checked_add(1) {
            Some(next) => {
                self.next_handle = next;
                Ok(id)
            },
            None => Err(FsError::Io("file descriptor handle space exhausted".to_owned())),
        }
    }
}

/// Every number is handed out once, in order, until the last; from then on the
/// request fails with a report and changes nothing.
pub proof fn law_numbers_are_handed_out_in_order(
    allocator: &mut HandleAllocator,
    r: Result<u32, FsError>,
)
    requires
        call_ensures(HandleAllocator::alloc_handle, (allocator,), r),
    ensures
        r is Ok <==> old(allocator).next_handle < u32::MAX,
        r matches Ok(handle) ==> {
            &&& handle == old(allocator).next_handle
            &&& final(allocator).next_handle == handle + 1
        },
        r matches Err(e) ==> {
            &&& e@ == FsError::<Seq<char>>::Io("file descriptor handle space exhausted"@)
            &&& final(allocator).next_handle == old(allocator).next_handle
        },
        handles_exhausted() == FsError::<Seq<char>>::Io("file descriptor handle space exhausted"@),
        FIRST_PREOPEN_FD == 3,
{
}

} // verus!
