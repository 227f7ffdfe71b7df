use vstd::prelude::*;

verus! {

/// The largest id an entry can carry.
pub const MAX_ID: u8 = 255;

/// One saved shell command with its description.
#[derive(Debug)]
pub struct Entry {
    pub id: u8,
    pub command: String,
    pub description: String,
}

impl Entry {
    /// Builds an entry with the next id of `ids`; the text fields are kept
    /// verbatim. Returns `None`, leaving `ids` as it was, once every id has
    /// been handed out.
    pub fn new(command: String, description: String, ids: &mut IdAllocator) -> (r: Option<Entry>)
        ensures
            old(ids).spec_next() <= MAX_ID ==> r == Some(
                (Entry { id: old(ids).spec_next() as u8, command, description }),
            ),
            old(ids).spec_next() <= MAX_ID ==> final(ids).spec_next() == old(ids).spec_next() + 1,
            old(ids).spec_next() > MAX_ID ==> r is None && final(ids).spec_next() == old(ids).spec_next(),
    {
        match ids.next() {
            Some(id) => Some(Entry { id, command, description }),
            None => None,
        }
    }

    /// A field-for-field copy.
    pub fn duplicate(&self) -> (r: Entry)
        ensures
            r == *self,
    {
        Entry { id: self.id, command: self.command.clone(), description: self.description.clone() }
    }
}

/// Hands out entry ids in increasing order, starting at 1.
#[derive(Debug)]
pub struct IdAllocator {
    next: u64,
}

impl IdAllocator {
    /// The id that the next call of `next` hands out (if it still fits).
    pub closed spec fn spec_next(&self) -> nat {
        self.next as nat
    }

    /// A fresh allocator: the first id is 1.
    pub fn new() -> (r: IdAllocator)
        ensures
            r.spec_next() == 1,
    {
        IdAllocator { next: 1 }
    }

    /// Continues after the largest id already in use.
    pub fn seed(&mut self, max_existing: u8)
        ensures
            final(self).spec_next() == max_existing + 1,
    {
        self.next = max_existing as u64 + 1;
    }

    /// The id that the next call of `next` hands out.
    pub fn peek(&self) -> (r: u64)
        ensures
            r == self.spec_next(),
    {
        self.next
    }

    /// Hands out the current id and moves on by one; `None`, with nothing
    /// changed, once the ids are exhausted.
    pub fn next(&mut self) -> (r: Option<u8>)
        ensures
            old(self).spec_next() <= MAX_ID ==> r == Some(old(self).spec_next() as u8)
                && final(self).spec_next() == old(self).spec_next() + 1,
            old(self).spec_next() > MAX_ID ==> r is None && final(self).spec_next() == old(self).spec_next(),
    {
        if self.next <= MAX_ID as u64 {
            let id = self.next as u8;
            self.next = self.next + 1;
            Some(id)
        } else {
            None
        }
    }
}

} // verus!
