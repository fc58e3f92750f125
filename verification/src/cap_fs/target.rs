//! The object of a host operation.
use vstd::prelude::*;

use crate::guest_path::{normal_form, GuestRelativePath, PathView};
use crate::perms::Dir;

verus! {

/// A host directory and a path below it, in the form that contracts use.
#[verifier::ext_equal]
pub struct TargetView {
    pub dir: Dir,
    pub path: PathView,
}

/// What a host operation is due on: a path below a directory that a
/// capability was given for.
pub struct Target {
    dir: Dir,
    path: GuestRelativePath,
}

impl View for Target {
    type V = TargetView;

    closed spec fn view(&self) -> TargetView {
        TargetView { dir: self.dir, path: self.path@ }
    }
}

impl Target {
    /// The path is one that the lexical policy accepts.
    pub closed spec fn wf(self) -> bool {
        self.path.wf()
    }

    /// A well-formed target has a safe path.
    pub proof fn wf_is_safe(self)
        requires
            self.wf(),
        ensures
            self@.path.safe(),
    {
        self.path.wf_is_safe();
    }

    pub(super) fn new(dir: Dir, path: GuestRelativePath) -> (r: Target)
        requires
            path.wf(),
        ensures
            r.wf(),
            r@ == (TargetView { dir, path: path@ }),
    {
        Target { dir, path }
    }

    /// Whether the path has to name a directory.
    pub(super) fn requires_directory(&self) -> (r: bool)
        ensures
            r == self@.path.requires_directory,
    {
        self.path.requires_directory()
    }

    /// The directory that the path starts from.
    pub fn dir(&self) -> (r: &Dir)
        ensures
            *r == self@.dir,
    {
        &self.dir
    }

    /// The path below the directory.
    pub fn path(&self) -> (r: &str)
        requires
            self.wf(),
        ensures
            r@ == normal_form(self@.path.components),
    {
        self.path.as_path()
    }
}

} // verus!
