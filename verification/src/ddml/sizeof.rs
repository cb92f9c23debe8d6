//! The *sizeof* context: runs a schema and accumulates the wire length that
//! the *wrap* context would emit, without touching a sponge.

use vstd::prelude::*;
use crate::ddml::size_len;
use crate::error::Error;

verus! {

/// Accumulates the byte length of a message schema.
pub struct Context {
    size: u64,
}

impl Context {
    pub fn new() -> (r: Context)
        ensures
            r.size_spec() == 0,
    {
        Context { size: 0 }
    }

    pub closed spec fn size_spec(&self) -> int {
        self.size as int
    }

    /// The accumulated length.
    pub fn size(&self) -> (r: u64)
        ensures
            r == self.size_spec(),
    {
        self.size
    }

    fn add(&mut self, n: u64) -> (r: Result<(), Error>)
        ensures
            r is Ok ==> final(self).size_spec() == old(self).size_spec() + n,
            r is Err ==> old(self).size_spec() + n > u64::MAX && *final(self) == *old(self),
    {
        if n <= u64::MAX - self.size {
            self.size = self.size + n;
            Ok(())
        } else {
            Err(Error::Encoding("message length", "u64"))
        }
    }

    /// One absorbed byte.
    pub fn absorb_u8(&mut self) -> (r: Result<(), Error>)
        ensures
            r is Ok ==> final(self).size_spec() == old(self).size_spec() + 1,
            r is Err ==> old(self).size_spec() + 1 > u64::MAX && *final(self) == *old(self),
    {
        self.add(1)
    }

    /// A fixed run of absorbed bytes.
    pub fn absorb_bytes(&mut self, n: usize) -> (r: Result<(), Error>)
        ensures
            r is Ok ==> final(self).size_spec() == old(self).size_spec() + n,
            r is Err ==> old(self).size_spec() + n > u64::MAX && *final(self) == *old(self),
    {
        self.add(n as u64)
    }

    /// An absorbed `size` value.
    pub fn absorb_size(&mut self, n: u64) -> (r: Result<(), Error>)
        ensures
            r is Ok ==> final(self).size_spec() == old(self).size_spec() + size_len(n as int)
                + 1,
            r is Err ==> *final(self) == *old(self),
    {
        let k = crate::ddml::size_len_exec(n);
        self.add((k + 1) as u64)
    }

    /// A fixed run of masked bytes (same wire length as absorbed ones).
    pub fn mask_bytes(&mut self, n: usize) -> (r: Result<(), Error>)
        ensures
            r is Ok ==> final(self).size_spec() == old(self).size_spec() + n,
            r is Err ==> old(self).size_spec() + n > u64::MAX && *final(self) == *old(self),
    {
        self.add(n as u64)
    }

    /// A masked `size` value.
    pub fn mask_size(&mut self, n: u64) -> (r: Result<(), Error>)
        ensures
            r is Ok ==> final(self).size_spec() == old(self).size_spec() + size_len(n as int)
                + 1,
            r is Err ==> *final(self) == *old(self),
    {
        let k = crate::ddml::size_len_exec(n);
        self.add((k + 1) as u64)
    }

    /// Key material absorbed without wire output.
    pub fn absorb_key(&mut self, _n: usize) -> (r: Result<(), Error>)
        ensures
            r is Ok,
            final(self).size_spec() == old(self).size_spec(),
    {
        Ok(())
    }

    /// Squeezed bytes emitted to the wire (an integrity tag).
    pub fn squeeze_emit(&mut self, n: usize) -> (r: Result<(), Error>)
        ensures
            r is Ok ==> final(self).size_spec() == old(self).size_spec() + n,
            r is Err ==> old(self).size_spec() + n > u64::MAX && *final(self) == *old(self),
    {
        self.add(n as u64)
    }

    /// A commit: no wire output.
    pub fn commit(&mut self) -> (r: Result<(), Error>)
        ensures
            r is Ok,
            final(self).size_spec() == old(self).size_spec(),
    {
        Ok(())
    }
}

} // verus!
