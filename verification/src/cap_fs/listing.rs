//! Directory streams.
use vstd::prelude::*;

use super::{listed, CapFs, DirStreamState};
use crate::error::{outcome, FsError, FsErrorView, HostError};
use crate::handles::handles_exhausted;
use crate::model::{lemma_dir_stream_moved, lemma_dir_stream_opened, DirStreamView, FsView};
use crate::perms::{Dir, DirPerms};

verus! {

broadcast use vstd::std_specs::btree::group_btree_axioms;

/// An entry as the host lists it: its name, and whether it is a directory.
pub struct HostEntry {
    pub name: String,
    pub is_dir: Result<bool, HostError>,
}

/// A directory being listed, in the form that contracts use.
#[verifier::ext_equal]
pub struct ListingView {
    pub dir_fd: u32,
    pub dir: Dir,
    pub entries: Seq<(Seq<char>, bool)>,
}

impl FsView {
    /// Checks a request to list a directory.
    pub open spec fn list_request(self, dir_fd: u32) -> Result<ListingView, FsErrorView> {
        match self.dir_of(dir_fd) {
            None => Err(FsError::BadDescriptor),
            Some(dir) => if !dir.grants().reads() {
                Err(FsError::NotPermitted)
            } else if !self.has_stream_room() {
                Err(FsError::Quota)
            } else {
                Ok(ListingView { dir_fd, dir, entries: Seq::empty() })
            },
        }
    }

    /// Takes one more entry: the state afterwards, and the entry. The entry is
    /// charged before its type is looked at.
    pub open spec fn list_entry(
        self,
        listing: ListingView,
        reply: Result<HostEntry, HostError>,
    ) -> (FsView, Result<(Seq<char>, bool), FsErrorView>) {
        match reply {
            Err(e) => (self, Err(e.classify())),
            Ok(entry) => if listing.entries.len()
                >= self.limits.max_directory_entries_per_listing {
                (self, Err(FsError::Quota))
            } else {
                match self.entries_charged(1) {
                    None => (self, Err(FsError::Quota)),
                    Some(after) => match entry.is_dir {
                        Err(e) => (after, Err(e.classify())),
                        Ok(is_dir) => (after, Ok((entry.name@, is_dir))),
                    },
                }
            },
        }
    }

    /// Opens a directory stream on what was listed.
    pub open spec fn list_finish(self, listing: ListingView) -> (
        FsView,
        Result<u32, FsErrorView>,
    ) {
        if self.has_handle() {
            (
                self.dir_stream_opened(
                    DirStreamView {
                        dir_fd: listing.dir_fd,
                        entries: listing.entries,
                        cursor: 0,
                    },
                ),
                Ok(self.next_handle),
            )
        } else {
            (self, Err(handles_exhausted()))
        }
    }

    /// Takes the next entry of a directory stream: the state afterwards, and
    /// the entry. `None` stands for no such stream, `Some(None)` for its end.
    pub open spec fn next_entry(self, stream_id: u32) -> (
        FsView,
        Option<Option<(Seq<char>, bool)>>,
    ) {
        if !self.dir_streams.contains_key(stream_id) {
            (self, None)
        } else {
            let stream = self.dir_streams[stream_id];
            if stream.cursor >= stream.entries.len() {
                (self, Some(None))
            } else {
                (
                    FsView {
                        dir_streams: self.dir_streams.insert(
                            stream_id,
                            DirStreamView { cursor: stream.cursor + 1, ..stream },
                        ),
                        ..self
                    },
                    Some(Some(stream.entries[stream.cursor as int])),
                )
            }
        }
    }
}

/// A directory being listed. The host is to hand over one entry after the
/// other.
pub struct Listing {
    dir_fd: u32,
    dir: Dir,
    entries: Vec<(String, bool)>,
}

impl View for Listing {
    type V = ListingView;

    closed spec fn view(&self) -> ListingView {
        ListingView { dir_fd: self.dir_fd, dir: self.dir, entries: listed(self.entries@) }
    }
}

impl Listing {
    /// The directory that the host is to list.
    pub fn dir(&self) -> (r: &Dir)
        ensures
            *r == self@.dir,
    {
        &self.dir
    }
}

impl CapFs {
    /// Asks to list a directory.
    pub fn create_dir_stream(&self, dir_fd: u32) -> (r: Result<Listing, FsError>)
        requires
            self.wf(),
        ensures
            match self@.list_request(dir_fd) {
                Ok(view) => r matches Ok(listing) && listing@ == view && self@.is_directory(dir_fd),
                Err(error) => r matches Err(e) && e@ == error,
            },
    {
        let dir = match self.get_dir(dir_fd) {
            Some(dir) => dir.clone(),
            None => return Err(FsError::BadDescriptor),
        };
        assert(self@.descriptor_ok(dir_fd));
        if !dir.perms().contains(DirPerms::READ) {
            return Err(FsError::NotPermitted);
        }
        if let Err(e) = self.ensure_stream_capacity() {
            return Err(e);
        }
        let r = Listing { dir_fd, dir, entries: Vec::new() };
        assert(r@.entries =~= Seq::empty());
        Ok(r)
    }

    /// Takes one more entry into a listing, or fails and leaves the listing as
    /// it is.
    pub fn list_entry(&mut self, listing: &mut Listing, reply: Result<HostEntry, HostError>) -> (r:
        Result<(), FsError>)
        requires
            old(self).wf(),
        ensures
            final(self).wf(),
            final(self)@ == old(self)@.list_entry(old(listing)@, reply).0,
            match old(self)@.list_entry(old(listing)@, reply).1 {
                Ok(entry) => r is Ok && final(listing)@ == (ListingView {
                    entries: old(listing)@.entries.push(entry),
                    ..old(listing)@
                }),
                Err(error) => (r matches Err(e) && e@ == error) && final(listing)@ == old(
                    listing,
                )@,
            },
    {
        let entry = match reply {
            Ok(entry) => entry,
            Err(e) => return Err(FsError::from_io(e)),
        };
        if listing.entries.len() >= self.limits.max_directory_entries_per_listing {
            return Err(FsError::Quota);
        }
        if let Err(e) = self.charge_directory_entries(1) {
            return Err(e);
        }
        match entry.is_dir {
            Ok(is_dir) => {
                listing.entries.push((entry.name, is_dir));
                assert(listing@.entries =~= old(listing)@.entries.push((entry.name@, is_dir)));
                Ok(())
            },
            Err(e) => Err(FsError::from_io(e)),
        }
    }

    /// Opens a directory stream on what was listed.
    pub fn list_finished(&mut self, listing: Listing) -> (r: Result<u32, FsError>)
        requires
            old(self).wf(),
            old(self)@.is_directory(listing@.dir_fd),
        ensures
            final(self).wf(),
            final(self)@ == old(self)@.list_finish(listing@).0,
            outcome(r) == old(self)@.list_finish(listing@).1,
    {
        let id = match self.alloc_handle() {
            Ok(id) => id,
            Err(e) => return Err(e),
        };
        let stream = DirStreamState {
            dir_fd: listing.dir_fd,
            entries: listing.entries,
            cursor: 0,
        };
        let ghost view = stream.model();
        proof {
            lemma_dir_stream_opened(old(self)@, view);
        }
        self.dir_streams.insert(id, stream);
        assert(self@ =~= old(self)@.dir_stream_opened(view));
        Ok(id)
    }

    /// Takes the next entry of a directory stream. `None` means that there is
    /// no such stream, `Some(None)` that it is at its end.
    pub fn read_dir_entry(&mut self, stream_id: u32) -> (r: Option<Option<(String, bool)>>)
        requires
            old(self).wf(),
        ensures
            final(self).wf(),
            final(self)@ == old(self)@.next_entry(stream_id).0,
            match old(self)@.next_entry(stream_id).1 {
                None => r is None,
                Some(None) => r == Some(None::<(String, bool)>),
                Some(Some(entry)) => r matches Some(Some(e)) && (e.0@, e.1) == entry,
            },
    {
        if !self.dir_streams.contains_key(&stream_id) {
            return None;
        }
        assert(self@.dir_streams.contains_key(stream_id));
        assert(self@.dir_stream_ok(stream_id));
        match self.dir_streams.remove(&stream_id) {
            Some(stream) => {
                assert(old(self)@.dir_streams[stream_id] == stream.model());
                if stream.cursor >= stream.entries.len() {
                    self.dir_streams.insert(stream_id, stream);
                    assert(self@.dir_streams =~= old(self)@.dir_streams);
                    assert(self@ =~= old(self)@);
                    return Some(None);
                }
                let entry = (stream.entries[stream.cursor].0.clone(), stream.entries[stream.cursor].1);
                let moved = DirStreamState {
                    dir_fd: stream.dir_fd,
                    entries: stream.entries,
                    cursor: stream.cursor + 1,
                };
                let ghost view = moved.model();
                proof {
                    lemma_dir_stream_moved(old(self)@, stream_id, view);
                }
                self.dir_streams.insert(stream_id, moved);
                assert(self@.dir_streams =~= old(self)@.dir_streams.insert(stream_id, view));
                assert(self@ =~= old(self)@.next_entry(stream_id).0);
                Some(Some(entry))
            },
            None => None,
        }
    }
}

} // verus!
