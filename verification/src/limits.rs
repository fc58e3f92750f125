//! Resource limits, and the counters that are held against them.
use vstd::prelude::*;

use crate::error::{outcome, FsError};

verus! {

/// Resource limits enforced by [`CapFs`](crate::cap_fs::CapFs).
///
/// Live descriptor and stream limits apply for the lifetime of the sandbox.
/// Byte, creation, and directory-entry budgets apply to one `run()` and are
/// reset by [`CapFs::prepare_for_run`](crate::cap_fs::CapFs::prepare_for_run).
#[derive(Clone, Copy, Debug, PartialEq, Eq, Structural)]
pub struct FilesystemLimits {
    /// Maximum number of live descriptors, including preopens.
    pub max_open_descriptors: usize,
    /// Maximum number of live file and directory streams combined.
    pub max_open_streams: usize,
    /// Maximum allocation made by one filesystem read.
    pub max_single_read_bytes: u64,
    /// Maximum number of bytes returned by filesystem reads in one run.
    pub max_read_bytes_per_run: u64,
    /// Maximum number of bytes accepted by filesystem writes in one run.
    pub max_written_bytes_per_run: u64,
    /// Maximum number of files and directories created in one run.
    pub max_creations_per_run: u64,
    /// Maximum entries materialized by one directory listing.
    pub max_directory_entries_per_listing: usize,
    /// Maximum entries materialized across directory listings in one run.
    pub max_directory_entries_per_run: u64,
    /// Maximum entries inspected while recursively cleaning one mount.
    pub max_cleanup_entries: u64,
    /// Maximum directory depth traversed by recursive cleanup.
    pub max_recursive_depth: usize,
}

impl FilesystemLimits {
    /// The limits that apply where none are chosen.
    pub open spec fn standard() -> FilesystemLimits {
        FilesystemLimits {
            max_open_descriptors: 1_024,
            max_open_streams: 1_024,
            max_single_read_bytes: 16_777_216,
            max_read_bytes_per_run: 268_435_456,
            max_written_bytes_per_run: 67_108_864,
            max_creations_per_run: 10_000,
            max_directory_entries_per_listing: 10_000,
            max_directory_entries_per_run: 100_000,
            max_cleanup_entries: 100_000,
            max_recursive_depth: 64,
        }
    }
}

impl Default for FilesystemLimits {
    fn default() -> (r: FilesystemLimits)
        ensures
            r == FilesystemLimits::standard(),
    {
        FilesystemLimits {
            max_open_descriptors: 1_024,
            max_open_streams: 1_024,
            max_single_read_bytes: 16 * 1024 * 1024,
            max_read_bytes_per_run: 256 * 1024 * 1024,
            max_written_bytes_per_run: 64 * 1024 * 1024,
            max_creations_per_run: 10_000,
            max_directory_entries_per_listing: 10_000,
            max_directory_entries_per_run: 100_000,
            max_cleanup_entries: 100_000,
            max_recursive_depth: 64,
        }
    }
}

/// Counters that are reset before each guest invocation.
#[derive(Clone, Copy, Debug, PartialEq, Eq, Structural)]
pub struct RunBudget {
    pub bytes_read: u64,
    pub bytes_written: u64,
    pub creations: u64,
    pub directory_entries: u64,
}

impl RunBudget {
    /// Nothing used yet.
    pub open spec fn unused() -> RunBudget {
        RunBudget { bytes_read: 0, bytes_written: 0, creations: 0, directory_entries: 0 }
    }
}

impl Default for RunBudget {
    fn default() -> (r: RunBudget)
        ensures
            r == RunBudget::unused(),
    {
        RunBudget { bytes_read: 0, bytes_written: 0, creations: 0, directory_entries: 0 }
    }
}

/// A counter after `amount` was charged to it, where `maximum` allows that.
pub open spec fn charged(current: u64, amount: u64, maximum: u64) -> Option<u64> {
    if current + amount <= maximum {
        Some((current + amount) as u64)
    } else {
        None
    }
}

/// Charges `amount` to a counter. Either the whole amount is charged, or the
/// counter stays as it is and the quota is exceeded.
pub fn checked_charge(current: &mut u64, amount: u64, maximum: u64) -> (r: Result<(), FsError>)
    ensures
        match charged(*old(current), amount, maximum) {
            Some(updated) => r is Ok && *final(current) == updated,
            None => outcome(r) == Err::<(), _>(FsError::<Seq<char>>::Quota) && *final(current)
                == *old(current),
        },
{
    match current.checked_add(amount) {
        Some(updated) => {
            if updated > maximum {
                return Err(FsError::Quota);
            }
            *current = updated;
            Ok(())
        },
        None => Err(FsError::Quota),
    }
}

/// A charge is taken whole or not at all: it is taken exactly where it keeps
/// the counter within the limit, and adds just the amount.
pub proof fn law_charges_are_whole(current: u64, amount: u64, maximum: u64)
    ensures
        match charged(current, amount, maximum) {
            Some(updated) => updated - current == amount && updated <= maximum,
            None => current + amount > maximum,
        },
{
}

/// Charging adds the amount to the counter, where the sum keeps to the maximum;
/// otherwise the quota is exceeded and the counter stays as it is.
pub proof fn law_counters_count(
    current: &mut u64,
    amount: u64,
    maximum: u64,
    r: Result<(), FsError>,
)
    requires
        call_ensures(checked_charge, (current, amount, maximum), r),
    ensures
        r is Ok <==> *old(current) + amount <= maximum,
        r is Ok ==> *final(current) == *old(current) + amount,
        r is Err ==> *final(current) == *old(current),
        r matches Err(e) ==> e is Quota,
{
}

/// The limits that apply where none were chosen, and the counters at the start
/// of a run.
pub proof fn law_standard_limits()
    ensures
        ({
            let limits = FilesystemLimits::standard();
            &&& limits.max_open_descriptors == 1024
            &&& limits.max_open_streams == 1024
            &&& limits.max_single_read_bytes == 16 * 1024 * 1024
            &&& limits.max_read_bytes_per_run == 256 * 1024 * 1024
            &&& limits.max_written_bytes_per_run == 64 * 1024 * 1024
            &&& limits.max_creations_per_run == 10_000
            &&& limits.max_directory_entries_per_listing == 10_000
            &&& limits.max_directory_entries_per_run == 100_000
            &&& limits.max_cleanup_entries == 100_000
            &&& limits.max_recursive_depth == 64
        }),
        ({
            let budget = RunBudget::unused();
            &&& budget.bytes_read == 0
            &&& budget.bytes_written == 0
            &&& budget.creations == 0
            &&& budget.directory_entries == 0
        }),
{
}

} // verus!
