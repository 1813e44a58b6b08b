//! The per-object metadata header and the collection-epoch mark.
//!
//! A header precedes every object: its size class, its encoded total size
//! (exact for small and medium objects, silently truncated for large ones,
//! whose size the field is never consulted for), and its mark colour.

use crate::size_class::SizeClass;
use vstd::prelude::*;

verus! {

/// A collection-epoch colour.  One colour is the arena's current mark at any
/// instant; an object whose stored mark equals it counts as already stamped
/// for the epoch in progress.
#[derive(Clone, Copy, Debug, PartialEq, Eq, Structural)]
pub enum Mark {
    Red,
    Blue,
}

/// The fixed-size metadata record placed immediately before every object.
#[derive(Clone, Copy, Debug, PartialEq, Eq, Structural)]
pub struct Header {
    pub size_class: SizeClass,
    pub encoded_size: u16,
    pub mark: Mark,
}

impl Header {
    /// The same header with its mark replaced.
    pub open spec fn with_mark(self, mark: Mark) -> Header {
        Header { mark, ..self }
    }

    pub fn new(size_class: SizeClass, encoded_size: u16, mark: Mark) -> (h: Header)
        ensures
            h == (Header { size_class, encoded_size, mark }),
    {
        Header { size_class, encoded_size, mark }
    }

    pub fn get_size_class(&self) -> (c: SizeClass)
        ensures
            c == self.size_class,
    {
        self.size_class
    }

    pub fn get_size(&self) -> (s: u16)
        ensures
            s == self.encoded_size,
    {
        self.encoded_size
    }

    pub fn get_mark(&self) -> (m: Mark)
        ensures
            m == self.mark,
    {
        self.mark
    }

    pub fn set_mark(&mut self, mark: Mark)
        ensures
            *final(self) == old(self).with_mark(mark),
    {
        self.mark = mark;
    }
}

} // verus!
