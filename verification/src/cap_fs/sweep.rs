//! Clearing the mounts that do not keep their contents.
use vstd::prelude::*;

use super::cleanup::CleanupView;
use super::{CapFs, Cleanup};
use crate::error::{outcome, FsError, FsErrorView};
use crate::limits::RunBudget;
use crate::model::{lemma_budget_and_limits, FsView};
use crate::perms::MountLifetime;
use crate::table::keys_of;

verus! {

broadcast use vstd::std_specs::btree::group_btree_axioms;

impl FsView {
    /// The mounts that are cleared before each run.
    pub open spec fn ephemeral(self) -> Set<u32> {
        Set::new(
            |fd: u32|
                self.preopens.contains_key(fd) && self.preopens[fd].lifetime is ClearBeforeRun,
        )
    }

    /// Whether `mounts` are the mounts that are cleared, in ascending order.
    pub open spec fn is_sweep_order(self, mounts: Seq<u32>) -> bool {
        &&& mounts.to_set() == self.ephemeral()
        &&& forall|i: int, j: int| 0 <= i < j < mounts.len() ==> mounts[i] < mounts[j]
    }

    /// The state after the given mounts were cleared one after the other.
    pub open spec fn swept(self, mounts: Seq<u32>) -> FsView
        decreases mounts.len(),
    {
        if mounts.len() == 0 {
            self
        } else {
            self.swept(mounts.drop_last()).mount_cleared(mounts.last())
        }
    }

    /// Whether a mount may be cleared.
    pub open spec fn clear_refusal(self, mount_fd: u32) -> Option<FsErrorView> {
        if !self.preopens.contains_key(mount_fd) {
            Some(FsError::BadDescriptor)
        } else if self.preopens[mount_fd].lifetime is Persistent {
            Some(FsError::NotPermitted)
        } else {
            None
        }
    }
}

/// A sweep over mounts, in the form that contracts use.
#[verifier::ext_equal]
pub struct SweepView {
    pub mounts: Seq<u32>,
    pub next: nat,
    pub failure: Option<FsErrorView>,
}

impl SweepView {
    /// Whether nothing is left to do: a mount failed, or none is left.
    pub open spec fn ended(self) -> bool {
        self.failure is Some || self.next >= self.mounts.len()
    }

    /// The sweep after its current mount was dealt with.
    pub open spec fn after(self, failure: Option<FsErrorView>) -> SweepView {
        SweepView { next: self.next + 1, failure, ..self }
    }

    /// Whether the sweep succeeded.
    pub open spec fn result(self) -> Result<(), FsErrorView> {
        match self.failure {
            Some(e) => Err(e),
            None => Ok(()),
        }
    }
}

/// A sweep over mounts. It stops at the first that cannot be cleared, so that
/// no run starts on a dirty one.
pub struct Sweep {
    mounts: Vec<u32>,
    next: usize,
    failure: Option<FsError>,
}

impl View for Sweep {
    type V = SweepView;

    closed spec fn view(&self) -> SweepView {
        SweepView {
            mounts: self.mounts@,
            next: self.next as nat,
            failure: match self.failure {
                Some(e) => Some(e@),
                None => None,
            },
        }
    }
}

impl CapFs {
    /// Starts to clear every ephemeral mount.
    ///
    /// The preopen roots are preserved. Nested directories, regular files, and
    /// symlinks are removed without following directory symlinks. Failures are
    /// returned so callers never execute a new run against dirty output state.
    pub fn clear_ephemeral_mounts(&self) -> (r: Sweep)
        ensures
            self@.is_sweep_order(r@.mounts),
            r@.next == 0,
            r@.failure is None,
    {
        let fds = keys_of(&self.preopen_dirs);
        let mut mounts: Vec<u32> = Vec::new();
        let mut i: usize = 0;
        while i < fds.len()
            invariant
                0 <= i <= fds@.len(),
                forall|a: int, b: int| 0 <= a < b < fds@.len() ==> fds@[a] < fds@[b],
                forall|j: int|
                    0 <= j < fds@.len() ==> self.preopen_dirs@.contains_key(#[trigger] fds@[j]),
                forall|k: u32| #[trigger]
                    mounts@.contains(k) <==> (fds@.take(i as int).contains(k)
                        && self@.ephemeral().contains(k)),
                forall|a: int, b: int| 0 <= a < b < mounts@.len() ==> mounts@[a] < mounts@[b],
            decreases fds@.len() - i,
        {
            let fd = fds[i];
            let ghost before = mounts@;
            proof {
                assert forall|a: int| 0 <= a < before.len() implies before[a] < fd by {
                    assert(before.contains(before[a]));
                    let taken = fds@.take(i as int);
                    assert(taken.contains(before[a]));
                    let j = choose|j: int| 0 <= j < taken.len() && taken[j] == before[a];
                    assert(fds@[j] < fds@[i as int]);
                }
            }
            if let Some(entry) = self.preopen_dirs.get(&fd) {
                assert(self@.preopens[fd] == entry.model());
                if entry.lifetime == MountLifetime::ClearBeforeRun {
                    mounts.push(fd);
                }
            }
            proof {
                super::tables::lemma_filter_step(
                    fds@,
                    i as int,
                    before,
                    mounts@,
                    self@.ephemeral(),
                );
            }
            i += 1;
        }
        proof {
            assert(fds@.take(i as int) =~= fds@);
            assert forall|k: u32| self@.ephemeral().contains(k) implies mounts@.contains(k) by {
                assert(self.preopen_dirs@.contains_key(k));
                assert(fds@.contains(k));
            }
            assert(mounts@.to_set() =~= self@.ephemeral());
        }
        Sweep { mounts, next: 0, failure: None }
    }

    /// Starts to clear output directory. Input is host-managed and left
    /// untouched.
    pub fn clear(&self) -> (r: Sweep)
        ensures
            self@.is_sweep_order(r@.mounts),
            r@.next == 0,
            r@.failure is None,
    {
        self.clear_ephemeral_mounts()
    }

    /// Starts to establish clean ephemeral state;
    /// [`run_prepared`](Self::run_prepared) concludes it.
    pub fn prepare_for_run(&self) -> (r: Sweep)
        ensures
            self@.is_sweep_order(r@.mounts),
            r@.next == 0,
            r@.failure is None,
    {
        self.clear_ephemeral_mounts()
    }

    /// Starts to clear an ephemeral mount while preserving its preopen root.
    ///
    /// Any persistent preopen is rejected even if it grants mutation rights.
    pub fn clear_mount(&self, mount_fd: u32) -> (r: Result<Cleanup, FsError>)
        ensures
            match self@.clear_refusal(mount_fd) {
                Some(error) => r matches Err(e) && e@ == error,
                None => r matches Ok(cleanup) && cleanup.wf() && cleanup.mount() == mount_fd
                    && cleanup.directory() == self@.preopens[mount_fd].dir && cleanup@
                    == CleanupView::begin(
                    self@.limits.max_cleanup_entries,
                    self@.limits.max_recursive_depth as nat,
                ),
            },
    {
        match self.preopen_dirs.get(&mount_fd) {
            Some(entry) => {
                assert(self@.preopens[mount_fd] == entry.model());
                if entry.lifetime == MountLifetime::Persistent {
                    return Err(FsError::NotPermitted);
                }
                Ok(
                    Cleanup::begin(
                        mount_fd,
                        entry.dir.clone(),
                        self.limits.max_cleanup_entries,
                        self.limits.max_recursive_depth,
                    ),
                )
            },
            None => Err(FsError::BadDescriptor),
        }
    }

    /// Concludes the cleanup of a mount.
    ///
    /// Cleanup may have partially changed the namespace before an I/O or
    /// bound failure. Every path-backed handle under the mount is invalidated
    /// in either case, so none can silently retarget a different object.
    pub fn mount_cleared(&mut self, cleanup: Cleanup) -> (r: Result<(), FsError>)
        requires
            old(self).wf(),
            cleanup@.action is Finish,
        ensures
            final(self).wf(),
            final(self)@ == old(self)@.mount_cleared(cleanup.mount()),
            outcome(r) == match cleanup@.failure {
                Some(e) => Err::<(), _>(e),
                None => Ok(()),
            },
    {
        let invalidated = self.descriptors_below(cleanup.mount_fd());
        proof {
            assert forall|fd: u32| #[trigger] invalidated@.contains(
                fd,
            ) implies !self@.preopens.contains_key(fd) by {
                assert(invalidated@.to_set().contains(fd));
                assert(self@.descriptor_ok(fd));
            }
        }
        self.invalidate_descriptors(&invalidated);
        self.recalculate_next_handle();
        cleanup.result()
    }

    /// The cleanup of the mount that a sweep has come to, if any is left.
    pub fn next_mount(&self, sweep: &Sweep) -> (r: Option<Cleanup>)
        requires
            self@.is_sweep_order(sweep@.mounts),
        ensures
            if sweep@.ended() {
                r is None
            } else {
                let mount_fd = sweep@.mounts[sweep@.next as int];
                r matches Some(cleanup) && cleanup.wf() && cleanup.mount() == mount_fd
                    && cleanup.directory() == self@.preopens[mount_fd].dir && cleanup@
                    == CleanupView::begin(
                    self@.limits.max_cleanup_entries,
                    self@.limits.max_recursive_depth as nat,
                )
            },
    {
        if sweep.failure.is_some() || sweep.next >= sweep.mounts.len() {
            return None;
        }
        assert(sweep@.mounts.to_set().contains(sweep@.mounts[sweep.next as int]));
        match self.clear_mount(sweep.mounts[sweep.next]) {
            Ok(cleanup) => Some(cleanup),
            Err(_) => None,
        }
    }

    /// Concludes the mount that a sweep has come to.
    pub fn mount_swept(&mut self, sweep: &mut Sweep, cleanup: Cleanup)
        requires
            old(self).wf(),
            !old(sweep)@.ended(),
            cleanup@.action is Finish,
            cleanup.mount() == old(sweep)@.mounts[old(sweep)@.next as int],
        ensures
            final(self).wf(),
            final(self)@ == old(self)@.mount_cleared(cleanup.mount()),
            final(sweep)@ == old(sweep)@.after(cleanup@.failure),
    {
        let result = self.mount_cleared(cleanup);
        assert(sweep.next < sweep.mounts.len());
        sweep.next = sweep.next + 1;
        if let Err(e) = result {
            sweep.failure = Some(e);
        }
        assert(sweep@ =~= old(sweep)@.after(cleanup@.failure));
    }

    /// Concludes a sweep before a run. Per-run quota accounting is reset only
    /// where every ephemeral mount is clean.
    pub fn run_prepared(&mut self, sweep: Sweep) -> (r: Result<(), FsError>)
        requires
            old(self).wf(),
            sweep@.ended(),
        ensures
            final(self).wf(),
            outcome(r) == sweep@.result(),
            final(self)@ == if sweep@.failure is None {
                old(self)@.with_budget(RunBudget::unused())
            } else {
                old(self)@
            },
    {
        match sweep.result() {
            Ok(_) => {
                self.run_budget = RunBudget::default();
                proof {
                    lemma_budget_and_limits(
                        old(self)@,
                        RunBudget::unused(),
                        old(self)@.limits,
                    );
                    assert(self@ =~= old(self)@.with_budget(RunBudget::unused()));
                }
                Ok(())
            },
            Err(e) => Err(e),
        }
    }
}

impl Sweep {
    /// Whether every mount was cleared, or why one was not.
    pub fn result(self) -> (r: Result<(), FsError>)
        requires
            self@.ended(),
        ensures
            outcome(r) == self@.result(),
    {
        match self.failure {
            Some(e) => Err(e),
            None => Ok(()),
        }
    }
}

} // verus!
