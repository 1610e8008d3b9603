//! Searching through files that are read only when the search comes to them.
//!
//! A search works on what is known of the files so far. Where it needs one
//! that has not been read it says which; the caller reads it, records what
//! came back, and asks again.

use vstd::prelude::*;

verus! {

/// What is known of one file.
pub enum FileState {
    /// Nobody has looked yet.
    Unread,
    /// There is no such file.
    Absent,
    /// It is there and could not be read.
    Failed,
    /// It is there and holds this text.
    Text(String),
}

/// What is known of the names in one directory.
pub enum Listing {
    /// Nobody has looked yet.
    Unread,
    /// The directory could not be read.
    Failed,
    /// The names in it; none where there is no such directory.
    Names(Vec<String>),
}

/// A file that a search may need. The number counts the directories on the
/// way up, from 0 for the one where the search starts.
#[derive(Debug, Clone, Copy, PartialEq, Eq, Structural)]
pub enum Request {
    GoWork(usize),
    GoMod(usize),
    GoVersion(usize),
    Global,
    Installed,
}

/// How far a search has come.
pub enum Search<T> {
    /// It found this.
    Found(T),
    /// There is nothing to find.
    NotFound,
    /// It cannot go on before this file has been read.
    Read(Request),
    /// It came to this file, and the file could not be read.
    Failed(Request),
}

impl<T: View> View for Search<T> {
    type V = Search<T::V>;

    open spec fn view(&self) -> Search<T::V> {
        match *self {
            Search::Found(t) => Search::Found(t@),
            Search::NotFound => Search::NotFound,
            Search::Read(q) => Search::Read(q),
            Search::Failed(q) => Search::Failed(q),
        }
    }
}

impl<T> Search<T> {
    /// Whether the search needs nothing more.
    pub open spec fn settled(self) -> bool {
        !(self is Read)
    }
}

/// Whether `later` is what may be known of a file after `earlier`: the same,
/// or anything where nobody had looked.
pub open spec fn learned(earlier: FileState, later: FileState) -> bool {
    earlier is Unread || earlier == later
}

} // verus!
