//! The *wrap* context: runs a schema over a sponge and emits the wire bytes.

use vstd::prelude::*;
use crate::ddml::{size_bytes, size_len};
use crate::error::Error;
use crate::sponge::{sp_absorb, sp_commit, sp_encrypt, sp_squeeze, sp_wf, SpView, Spongos};

verus! {

/// Model of a wrap context: the sponge state and the bytes emitted so far.
pub struct WrapView {
    pub sp: SpView,
    pub out: Seq<u8>,
}

/// Emits a message over a sponge: each verb advances the sponge exactly as
/// the *unwrap* context will on the reader side, and appends to the wire.
pub struct Context {
    spongos: Spongos,
    out: Vec<u8>,
}

impl View for Context {
    type V = WrapView;

    closed spec fn view(&self) -> WrapView {
        WrapView { sp: self.spongos@, out: self.out@ }
    }
}

pub open spec fn ctx_wf(v: WrapView) -> bool {
    sp_wf(v.sp)
}

impl Context {
    /// Start wrapping on the given sponge state with an empty wire.
    pub fn new(spongos: Spongos) -> (r: Context)
        ensures
            r@.sp == spongos@,
            r@.out == Seq::<u8>::empty(),
    {
        let out: Vec<u8> = Vec::new();
        Context { spongos, out }
    }

    /// Finish: hand back the final sponge (the message snapshot once
    /// committed) and the wire bytes.
    pub fn into_parts(self) -> (r: (Spongos, Vec<u8>))
        ensures
            r.0@ == self@.sp,
            r.1@ == self@.out,
    {
        (self.spongos, self.out)
    }

    /// Absorb one public byte and emit it.
    pub fn absorb_u8(&mut self, x: u8) -> (r: Result<(), Error>)
        requires
            ctx_wf(old(self)@),
        ensures
            r is Ok,
            ctx_wf(final(self)@),
            final(self)@.sp == sp_absorb(old(self)@.sp, seq![x]),
            final(self)@.out == old(self)@.out.push(x),
    {
        let mut one: Vec<u8> = Vec::new();
        one.push(x);
        self.spongos.absorb(one.as_slice());
        self.out.push(x);
        proof {
            assert(one@ =~= seq![x]);
        }
        Ok(())
    }

    /// Absorb a fixed byte run and emit it.
    pub fn absorb_bytes(&mut self, d: &[u8]) -> (r: Result<(), Error>)
        requires
            ctx_wf(old(self)@),
        ensures
            r is Ok,
            ctx_wf(final(self)@),
            final(self)@.sp == sp_absorb(old(self)@.sp, d@),
            final(self)@.out == old(self)@.out + d@,
    {
        self.spongos.absorb(d);
        let mut i: usize = 0;
        let ghost start = self.out@;
        while i < d.len()
            invariant
                i <= d@.len(),
                self.out@ == start + d@.take(i as int),
                self.spongos@ == sp_absorb(old(self)@.sp, d@),
            decreases d@.len() - i,
        {
            self.out.push(d[i]);
            i = i + 1;
            proof {
                assert(start + d@.take(i as int) =~= (start + d@.take(i as int - 1)).push(
                    d@[i as int - 1],
                ));
            }
        }
        proof {
            assert(self.out@ =~= old(self)@.out + d@);
        }
        Ok(())
    }

    /// Absorb a `size` value and emit its encoding.
    pub fn absorb_size(&mut self, n: u64) -> (r: Result<(), Error>)
        requires
            ctx_wf(old(self)@),
        ensures
            r is Ok,
            ctx_wf(final(self)@),
            final(self)@.sp == sp_absorb(old(self)@.sp, size_bytes(n as int)),
            final(self)@.out == old(self)@.out + size_bytes(n as int),
    {
        let enc = crate::ddml::size_encode(n);
        self.absorb_bytes(enc.as_slice())
    }

    /// Absorb key material without emitting it.
    pub fn absorb_key(&mut self, d: &[u8]) -> (r: Result<(), Error>)
        requires
            ctx_wf(old(self)@),
        ensures
            r is Ok,
            ctx_wf(final(self)@),
            final(self)@.sp == sp_absorb(old(self)@.sp, d@),
            final(self)@.out == old(self)@.out,
    {
        self.spongos.absorb(d);
        Ok(())
    }

    /// Encrypt a byte run with the sponge key stream and emit the ciphertext.
    pub fn mask_bytes(&mut self, d: &[u8]) -> (r: Result<(), Error>)
        requires
            ctx_wf(old(self)@),
        ensures
            r is Ok,
            ctx_wf(final(self)@),
            final(self)@.sp == sp_encrypt(old(self)@.sp, d@).0,
            final(self)@.out == old(self)@.out + sp_encrypt(old(self)@.sp, d@).1,
    {
        let cipher = self.spongos.encrypt(d);
        let mut i: usize = 0;
        let ghost start = self.out@;
        while i < cipher.len()
            invariant
                i <= cipher@.len(),
                self.out@ == start + cipher@.take(i as int),
                cipher@ == sp_encrypt(old(self)@.sp, d@).1,
                self.spongos@ == sp_encrypt(old(self)@.sp, d@).0,
                sp_wf(self.spongos@),
            decreases cipher@.len() - i,
        {
            self.out.push(cipher[i]);
            i = i + 1;
            proof {
                assert(start + cipher@.take(i as int) =~= (start + cipher@.take(i as int - 1))
                    .push(cipher@[i as int - 1]));
            }
        }
        proof {
            assert(self.out@ =~= old(self)@.out + sp_encrypt(old(self)@.sp, d@).1);
        }
        Ok(())
    }

    /// Mask a `size` value.
    pub fn mask_size(&mut self, n: u64) -> (r: Result<(), Error>)
        requires
            ctx_wf(old(self)@),
        ensures
            r is Ok,
            ctx_wf(final(self)@),
            final(self)@.sp == sp_encrypt(old(self)@.sp, size_bytes(n as int)).0,
            final(self)@.out == old(self)@.out + sp_encrypt(
                old(self)@.sp,
                size_bytes(n as int),
            ).1,
    {
        let enc = crate::ddml::size_encode(n);
        self.mask_bytes(enc.as_slice())
    }

    /// Squeeze `n` bytes and emit them (an integrity tag the reader checks).
    pub fn squeeze_emit(&mut self, n: usize) -> (r: Result<(), Error>)
        requires
            ctx_wf(old(self)@),
        ensures
            r is Ok,
            ctx_wf(final(self)@),
            final(self)@.sp == sp_squeeze(old(self)@.sp, n as nat).0,
            final(self)@.out == old(self)@.out + sp_squeeze(old(self)@.sp, n as nat).1,
    {
        let sq = self.spongos.squeeze(n);
        let mut i: usize = 0;
        let ghost start = self.out@;
        while i < sq.len()
            invariant
                i <= sq@.len(),
                self.out@ == start + sq@.take(i as int),
                sq@ == sp_squeeze(old(self)@.sp, n as nat).1,
                self.spongos@ == sp_squeeze(old(self)@.sp, n as nat).0,
                sp_wf(self.spongos@),
            decreases sq@.len() - i,
        {
            self.out.push(sq[i]);
            i = i + 1;
            proof {
                assert(start + sq@.take(i as int) =~= (start + sq@.take(i as int - 1)).push(
                    sq@[i as int - 1],
                ));
            }
        }
        proof {
            assert(self.out@ =~= old(self)@.out + sp_squeeze(old(self)@.sp, n as nat).1);
        }
        Ok(())
    }

    /// Squeeze `n` bytes for local use (a hash to be signed); no wire output.
    pub fn squeeze_local(&mut self, n: usize) -> (r: Vec<u8>)
        requires
            ctx_wf(old(self)@),
        ensures
            ctx_wf(final(self)@),
            final(self)@.sp == sp_squeeze(old(self)@.sp, n as nat).0,
            r@ == sp_squeeze(old(self)@.sp, n as nat).1,
            final(self)@.out == old(self)@.out,
    {
        self.spongos.squeeze(n)
    }

    /// Seal the current section.
    pub fn commit(&mut self) -> (r: Result<(), Error>)
        requires
            ctx_wf(old(self)@),
        ensures
            r is Ok,
            ctx_wf(final(self)@),
            final(self)@.sp == sp_commit(old(self)@.sp),
            final(self)@.out == old(self)@.out,
    {
        self.spongos.commit();
        Ok(())
    }

    /// Chain another sponge state (a parent snapshot) into this message.
    pub fn join(&mut self, other: &Spongos) -> (r: Result<(), Error>)
        requires
            ctx_wf(old(self)@),
        ensures
            r is Ok,
            ctx_wf(final(self)@),
            final(self)@.sp == crate::sponge::sp_join(old(self)@.sp, other@),
            final(self)@.out == old(self)@.out,
    {
        self.spongos.join(other);
        Ok(())
    }

    /// Keyload entry: fork the sponge, absorb the recipient's session
    /// secret into the fork, and mask the session key under the fork. The
    /// main sponge is untouched; only the ciphertext reaches the wire.
    pub fn fork_mask_key(&mut self, shared: &[u8], key: &[u8]) -> (r: Result<(), Error>)
        requires
            ctx_wf(old(self)@),
        ensures
            r is Ok,
            ctx_wf(final(self)@),
            final(self)@.sp == old(self)@.sp,
            final(self)@.out == old(self)@.out + sp_encrypt(
                sp_absorb(old(self)@.sp, shared@),
                key@,
            ).1,
            final(self)@.out.len() == old(self)@.out.len() + key@.len(),
    {
        let mut fork = self.spongos.fork();
        fork.absorb(shared);
        let cipher = fork.encrypt(key);
        let mut i: usize = 0;
        let ghost start = self.out@;
        while i < cipher.len()
            invariant
                i <= cipher@.len(),
                self.out@ == start + cipher@.take(i as int),
                cipher@ == sp_encrypt(sp_absorb(old(self)@.sp, shared@), key@).1,
                cipher@.len() == key@.len(),
                self.spongos@ == old(self)@.sp,
            decreases cipher@.len() - i,
        {
            self.out.push(cipher[i]);
            i = i + 1;
            proof {
                assert(start + cipher@.take(i as int) =~= (start + cipher@.take(i as int - 1))
                    .push(cipher@[i as int - 1]));
            }
        }
        proof {
            assert(self.out@ =~= old(self)@.out + sp_encrypt(
                sp_absorb(old(self)@.sp, shared@),
                key@,
            ).1);
        }
        Ok(())
    }
}

} // verus!
