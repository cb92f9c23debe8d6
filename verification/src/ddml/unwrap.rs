//! The *unwrap* context: runs a schema over a sponge, consuming wire bytes.

use vstd::prelude::*;
use crate::error::Error;
use crate::sponge::{
    sp_encrypt,
    sp_absorb, sp_commit, sp_decrypt, sp_squeeze, sp_wf, SpView, Spongos,
};

verus! {

/// Model of an unwrap context: sponge state, full input, read cursor.
pub struct UnwrapView {
    pub sp: SpView,
    pub input: Seq<u8>,
    pub pos: int,
}

pub open spec fn ctx_wf(v: UnwrapView) -> bool {
    sp_wf(v.sp) && 0 <= v.pos <= v.input.len()
}

/// Whether the decrypted stream at `pos` holds a canonical `size`
/// encoding: the masked dual of [`crate::ddml::size_parses`].
pub open spec fn masked_size_parses(sp: SpView, input: Seq<u8>, pos: int) -> bool {
    pos + 1 <= input.len() && ({
        let k = masked_size_k(sp, input, pos);
        k <= 8 && pos + 1 + k <= input.len() && crate::ddml::size_len(
            masked_size_val(sp, input, pos),
        ) == k
    })
}

/// The decrypted length-of-length byte of a masked `size` field.
pub open spec fn masked_size_k(sp: SpView, input: Seq<u8>, pos: int) -> u8 {
    sp_decrypt(sp, input.subrange(pos, pos + 1)).1[0]
}

/// The decrypted value of a masked `size` field.
pub open spec fn masked_size_val(sp: SpView, input: Seq<u8>, pos: int) -> int {
    crate::ddml::be_val(
        sp_decrypt(
            sp_decrypt(sp, input.subrange(pos, pos + 1)).0,
            input.subrange(pos + 1, pos + 1 + masked_size_k(sp, input, pos)),
        ).1,
    )
}

/// Consumes a message over a sponge: each verb advances the sponge exactly
/// as the *wrap* context did on the writer side.
pub struct Context {
    spongos: Spongos,
    input: Vec<u8>,
    pos: usize,
}

impl View for Context {
    type V = UnwrapView;

    closed spec fn view(&self) -> UnwrapView {
        UnwrapView { sp: self.spongos@, input: self.input@, pos: self.pos as int }
    }
}

impl Context {
    /// Start unwrapping `input` on the given sponge state.
    pub fn new(spongos: Spongos, input: Vec<u8>) -> (r: Context)
        ensures
            r@.sp == spongos@,
            r@.input == input@,
            r@.pos == 0,
    {
        Context { spongos, input, pos: 0 }
    }

    /// Bytes not yet consumed.
    pub fn remaining(&self) -> (r: usize)
        requires
            ctx_wf(self@),
        ensures
            r == self@.input.len() - self@.pos,
    {
        self.input.len() - self.pos
    }

    /// Finish: hand back the sponge (the message snapshot once committed).
    pub fn into_spongos(self) -> (r: Spongos)
        ensures
            r@ == self@.sp,
    {
        self.spongos
    }

    /// Read one absorbed byte.
    pub fn absorb_u8(&mut self) -> (r: Result<u8, Error>)
        requires
            ctx_wf(old(self)@),
        ensures
            ctx_wf(final(self)@),
            final(self)@.input == old(self)@.input,
            r matches Ok(x) ==> old(self)@.pos + 1 <= old(self)@.input.len()
                && x == old(self)@.input[old(self)@.pos]
                && final(self)@.sp == sp_absorb(old(self)@.sp, seq![x])
                && final(self)@.pos == old(self)@.pos + 1,
            r is Err ==> old(self)@.pos == old(self)@.input.len() && *final(self) == *old(self),
    {
        if self.input.len() - self.pos < 1 {
            return Err(Error::Encoding("byte", "wire"));
        }
        let x = self.input[self.pos];
        let mut one: Vec<u8> = Vec::new();
        one.push(x);
        self.spongos.absorb(one.as_slice());
        self.pos = self.pos + 1;
        proof {
            assert(one@ =~= seq![x]);
        }
        Ok(x)
    }

    /// Read `n` absorbed bytes.
    pub fn absorb_bytes(&mut self, n: usize) -> (r: Result<Vec<u8>, Error>)
        requires
            ctx_wf(old(self)@),
        ensures
            ctx_wf(final(self)@),
            final(self)@.input == old(self)@.input,
            r matches Ok(v) ==> old(self)@.pos + n <= old(self)@.input.len()
                && v@ == old(self)@.input.subrange(old(self)@.pos, old(self)@.pos + n)
                && final(self)@.sp == sp_absorb(old(self)@.sp, v@)
                && final(self)@.pos == old(self)@.pos + n,
            r is Err ==> old(self)@.pos + n > old(self)@.input.len() && *final(self) == *old(self),
    {
        if n > self.input.len() - self.pos {
            return Err(Error::Encoding("bytes", "wire"));
        }
        let cap = self.input.len();
        let mut v: Vec<u8> = Vec::new();
        let mut i: usize = 0;
        while i < n
            invariant
                i <= n,
                self.pos + n <= self.input@.len(),
                self.input@.len() == cap,
                v@.len() == i,
                self == old(self),
                forall|j: int| 0 <= j < i ==> v@[j] == self.input@[self.pos + j],
            decreases n - i,
        {
            v.push(self.input[self.pos + i]);
            i = i + 1;
        }
        proof {
            assert(v@ =~= old(self)@.input.subrange(
                old(self)@.pos,
                old(self)@.pos + n,
            ));
        }
        self.spongos.absorb(v.as_slice());
        self.pos = self.pos + n;
        Ok(v)
    }

    /// Read an absorbed `size` value: a length-of-length byte, then that
    /// many big-endian bytes. Only the canonical (shortest) encoding is
    /// accepted, so the consumed bytes are exactly the encoding of the
    /// returned value; succeeds exactly when the input holds one.
    pub fn absorb_size(&mut self) -> (r: Result<u64, Error>)
        requires
            ctx_wf(old(self)@),
        ensures
            ctx_wf(final(self)@),
            final(self)@.input == old(self)@.input,
            r is Ok <==> crate::ddml::size_parses(old(self)@.input, old(self)@.pos),
            r matches Ok(n) ==> n as int == crate::ddml::size_parsed_val(
                old(self)@.input,
                old(self)@.pos,
            ),
            r matches Ok(n) ==> ({
                let c = crate::ddml::size_len(n as int) + 1;
                old(self)@.pos + c <= old(self)@.input.len() && old(self)@.input.subrange(
                    old(self)@.pos,
                    old(self)@.pos + c,
                ) == crate::ddml::size_bytes(n as int) && final(self)@.sp == sp_absorb(
                    old(self)@.sp,
                    crate::ddml::size_bytes(n as int),
                ) && final(self)@.pos == old(self)@.pos + c
            }),
    {
        let ghost pre = self@;
        let k = self.absorb_u8()?;
        if k > 8 {
            return Err(Error::Encoding("size", "length-of-length"));
        }
        let bytes = match self.absorb_bytes(k as usize) {
            Ok(b) => b,
            Err(e) => {
                return Err(e);
            },
        };
        let n = crate::ddml::be_decode(bytes.as_slice());
        if crate::ddml::size_len_exec(n) != k as usize {
            return Err(Error::Encoding("size", "canonical"));
        }
        proof {
            crate::ddml::lemma_size_len_bound(n);
            crate::ddml::lemma_be_val_of_bytes(n as int, k as nat);
            crate::ddml::lemma_be_val_injective(
                bytes@,
                crate::ddml::be_bytes(n as int, k as nat),
            );
            assert(seq![pre.input[pre.pos]] + bytes@ =~= pre.input.subrange(
                pre.pos,
                pre.pos + 1 + (k as int),
            ));
            assert(seq![pre.input[pre.pos]] + bytes@ =~= crate::ddml::size_bytes(n as int));
            crate::sponge::lemma_sp_absorb_append(
                pre.sp,
                seq![pre.input[pre.pos]],
                bytes@,
            );
        }
        Ok(n)
    }

    /// Absorb key material (no wire input).
    pub fn absorb_key(&mut self, d: &[u8])
        requires
            ctx_wf(old(self)@),
        ensures
            ctx_wf(final(self)@),
            final(self)@.input == old(self)@.input,
            final(self)@.pos == old(self)@.pos,
            final(self)@.sp == sp_absorb(old(self)@.sp, d@),
    {
        self.spongos.absorb(d);
    }

    /// Read `n` masked bytes and decrypt them.
    pub fn mask_bytes(&mut self, n: usize) -> (r: Result<Vec<u8>, Error>)
        requires
            ctx_wf(old(self)@),
        ensures
            ctx_wf(final(self)@),
            final(self)@.input == old(self)@.input,
            r matches Ok(v) ==> ({
                let cipher = old(self)@.input.subrange(old(self)@.pos, old(self)@.pos + n);
                old(self)@.pos + n <= old(self)@.input.len() && v@ == sp_decrypt(
                    old(self)@.sp,
                    cipher,
                ).1 && v@.len() == n && final(self)@.sp == sp_decrypt(
                    old(self)@.sp,
                    cipher,
                ).0 && final(self)@.pos == old(self)@.pos + n
            }),
            r is Err ==> old(self)@.pos + n > old(self)@.input.len() && *final(self) == *old(self),
    {
        if n > self.input.len() - self.pos {
            return Err(Error::Encoding("masked bytes", "wire"));
        }
        let cap = self.input.len();
        let mut cipher: Vec<u8> = Vec::new();
        let mut i: usize = 0;
        while i < n
            invariant
                i <= n,
                self.pos + n <= self.input@.len(),
                self.input@.len() == cap,
                cipher@.len() == i,
                self == old(self),
                forall|j: int| 0 <= j < i ==> cipher@[j] == self.input@[self.pos + j],
            decreases n - i,
        {
            cipher.push(self.input[self.pos + i]);
            i = i + 1;
        }
        proof {
            assert(cipher@ =~= old(self)@.input.subrange(
                old(self)@.pos,
                old(self)@.pos + n,
            ));
        }
        let plain = self.spongos.decrypt(cipher.as_slice());
        self.pos = self.pos + n;
        Ok(plain)
    }

    /// Read a masked `size` value: the dual of the writer's masked `size`.
    /// Only the canonical encoding is accepted, so the consumed ciphertext
    /// is exactly what masking the returned value on this state emits;
    /// succeeds exactly when the decrypted stream holds one.
    pub fn mask_size(&mut self) -> (r: Result<u64, Error>)
        requires
            ctx_wf(old(self)@),
        ensures
            ctx_wf(final(self)@),
            final(self)@.input == old(self)@.input,
            r is Ok <==> masked_size_parses(old(self)@.sp, old(self)@.input, old(self)@.pos),
            r matches Ok(n) ==> n as int == masked_size_val(
                old(self)@.sp,
                old(self)@.input,
                old(self)@.pos,
            ),
            r matches Ok(n) ==> ({
                let c = crate::ddml::size_len(n as int) + 1;
                old(self)@.pos + c <= old(self)@.input.len() && old(self)@.input.subrange(
                    old(self)@.pos,
                    old(self)@.pos + c,
                ) == sp_encrypt(old(self)@.sp, crate::ddml::size_bytes(n as int)).1 && final(self)@.sp == sp_encrypt(old(self)@.sp, crate::ddml::size_bytes(n as int)).0
                    && final(self)@.pos == old(self)@.pos + c
            }),
    {
        let ghost pre = self@;
        let kv = match self.mask_bytes(1) {
            Ok(v) => v,
            Err(e) => {
                return Err(e);
            },
        };
        let k = kv[0];
        if k > 8 {
            return Err(Error::Encoding("size", "length-of-length"));
        }
        let bytes = match self.mask_bytes(k as usize) {
            Ok(b) => b,
            Err(e) => {
                return Err(e);
            },
        };
        let n = crate::ddml::be_decode(bytes.as_slice());
        if crate::ddml::size_len_exec(n) != k as usize {
            return Err(Error::Encoding("size", "canonical"));
        }
        proof {
            let c1 = pre.input.subrange(pre.pos, pre.pos + 1);
            let c2 = pre.input.subrange(pre.pos + 1, pre.pos + 1 + k as int);
            let s1 = sp_decrypt(pre.sp, c1);
            crate::ddml::lemma_size_len_bound(n);
            crate::ddml::lemma_be_val_of_bytes(n as int, k as nat);
            crate::ddml::lemma_be_val_injective(
                bytes@,
                crate::ddml::be_bytes(n as int, k as nat),
            );
            crate::sponge::lemma_sp_decrypt_append(pre.sp, c1, c2);
            assert(c1 + c2 =~= pre.input.subrange(pre.pos, pre.pos + 1 + k as int));
            assert(s1.1 + bytes@ =~= crate::ddml::size_bytes(n as int));
            crate::sponge::lemma_encrypt_inverts_decrypt(pre.sp, c1 + c2);
        }
        Ok(n)
    }

    /// Read `n` wire bytes without touching the sponge.
    pub fn skip(&mut self, n: usize) -> (r: Result<Vec<u8>, Error>)
        requires
            ctx_wf(old(self)@),
        ensures
            ctx_wf(final(self)@),
            final(self)@.input == old(self)@.input,
            r matches Ok(v) ==> old(self)@.pos + n <= old(self)@.input.len()
                && v@ == old(self)@.input.subrange(old(self)@.pos, old(self)@.pos + n)
                && final(self)@.sp == old(self)@.sp
                && final(self)@.pos == old(self)@.pos + n,
            r is Err ==> old(self)@.pos + n > old(self)@.input.len() && *final(self) == *old(self),
    {
        if n > self.input.len() - self.pos {
            return Err(Error::Encoding("skipped bytes", "wire"));
        }
        let cap = self.input.len();
        let mut v: Vec<u8> = Vec::new();
        let mut i: usize = 0;
        while i < n
            invariant
                i <= n,
                self.pos + n <= self.input@.len(),
                self.input@.len() == cap,
                v@.len() == i,
                self == old(self),
                forall|j: int| 0 <= j < i ==> v@[j] == self.input@[self.pos + j],
            decreases n - i,
        {
            v.push(self.input[self.pos + i]);
            i = i + 1;
        }
        proof {
            assert(v@ =~= old(self)@.input.subrange(
                old(self)@.pos,
                old(self)@.pos + n,
            ));
        }
        self.pos = self.pos + n;
        Ok(v)
    }

    /// Squeeze `n` bytes for local use (a hash to check a signature against).
    pub fn squeeze_local(&mut self, n: usize) -> (r: Vec<u8>)
        requires
            ctx_wf(old(self)@),
        ensures
            ctx_wf(final(self)@),
            final(self)@.input == old(self)@.input,
            final(self)@.pos == old(self)@.pos,
            final(self)@.sp == sp_squeeze(old(self)@.sp, n as nat).0,
            r@ == sp_squeeze(old(self)@.sp, n as nat).1,
    {
        self.spongos.squeeze(n)
    }

    /// Squeeze `n` bytes and check them against the next `n` wire bytes: the
    /// sponge-guard dual of the writer's emitted squeeze. Succeeds exactly
    /// when the wire carries the squeeze of the same sponge state.
    pub fn squeeze_verify(&mut self, n: usize) -> (r: Result<(), Error>)
        requires
            ctx_wf(old(self)@),
        ensures
            ctx_wf(final(self)@),
            final(self)@.input == old(self)@.input,
            r is Ok <==> (old(self)@.pos + n <= old(self)@.input.len() && old(self)@.input.subrange(old(self)@.pos, old(self)@.pos + n) == sp_squeeze(
                old(self)@.sp,
                n as nat,
            ).1),
            r is Ok ==> final(self)@.sp == sp_squeeze(old(self)@.sp, n as nat).0 && final(self)@.pos == old(self)@.pos + n,
    {
        let expected = self.spongos.squeeze(n);
        if n > self.input.len() - self.pos {
            proof {
                assert(old(self)@.pos + n > old(self)@.input.len());
            }
            return Err(Error::Crypto("integrity tag missing"));
        }
        let cap = self.input.len();
        let mut i: usize = 0;
        while i < n
            invariant
                ctx_wf(self@),
                i <= n,
                self.pos + n <= self.input@.len(),
                self.input@.len() == cap,
                self.pos == old(self).pos,
                self.input@ == old(self)@.input,
                expected@.len() == n,
                expected@ == sp_squeeze(old(self)@.sp, n as nat).1,
                self.spongos@ == sp_squeeze(old(self)@.sp, n as nat).0,
                forall|j: int| 0 <= j < i ==> self.input@[self.pos + j] == expected@[j],
            decreases n - i,
        {
            if self.input[self.pos + i] != expected[i] {
                proof {
                    assert(old(self)@.input.subrange(
                        old(self)@.pos,
                        old(self)@.pos + n,
                    )[i as int] != sp_squeeze(old(self)@.sp, n as nat).1[i as int]);
                }
                return Err(Error::Crypto("integrity tag mismatch"));
            }
            i = i + 1;
        }
        proof {
            assert(old(self)@.input.subrange(old(self)@.pos, old(self)@.pos + n)
                =~= sp_squeeze(old(self)@.sp, n as nat).1);
        }
        self.pos = self.pos + n;
        Ok(())
    }

    /// Seal the current section.
    pub fn commit(&mut self) -> (r: Result<(), Error>)
        requires
            ctx_wf(old(self)@),
        ensures
            r is Ok,
            ctx_wf(final(self)@),
            final(self)@.input == old(self)@.input,
            final(self)@.pos == old(self)@.pos,
            final(self)@.sp == sp_commit(old(self)@.sp),
    {
        self.spongos.commit();
        Ok(())
    }

    /// Chain another sponge state (a parent snapshot) into this message.
    pub fn join(&mut self, other: &Spongos) -> (r: Result<(), Error>)
        requires
            ctx_wf(old(self)@),
        ensures
            r is Ok,
            ctx_wf(final(self)@),
            final(self)@.input == old(self)@.input,
            final(self)@.pos == old(self)@.pos,
            final(self)@.sp == crate::sponge::sp_join(old(self)@.sp, other@),
    {
        self.spongos.join(other);
        Ok(())
    }

    /// Keyload entry addressed to this user: fork the sponge, absorb the
    /// session secret into the fork, and unmask the session key under the
    /// fork. The main sponge is untouched.
    pub fn fork_unmask_key(&mut self, shared: &[u8], n: usize) -> (r: Result<Vec<u8>, Error>)
        requires
            ctx_wf(old(self)@),
        ensures
            ctx_wf(final(self)@),
            final(self)@.input == old(self)@.input,
            final(self)@.sp == old(self)@.sp,
            r matches Ok(v) ==> ({
                let cipher = old(self)@.input.subrange(old(self)@.pos, old(self)@.pos + n);
                old(self)@.pos + n <= old(self)@.input.len() && v@ == sp_decrypt(
                    sp_absorb(old(self)@.sp, shared@),
                    cipher,
                ).1 && v@.len() == n && final(self)@.pos == old(self)@.pos + n
            }),
            r is Err ==> old(self)@.pos + n > old(self)@.input.len() && *final(self) == *old(
                self,
            ),
    {
        let cap = self.input.len();
        if n > self.input.len() - self.pos {
            return Err(Error::Encoding("keyload entry", "wire"));
        }
        let mut cipher: Vec<u8> = Vec::new();
        let mut i: usize = 0;
        while i < n
            invariant
                i <= n,
                self.pos + n <= self.input@.len(),
                self.input@.len() == cap,
                cipher@.len() == i,
                self == old(self),
                forall|j: int| 0 <= j < i ==> cipher@[j] == self.input@[self.pos + j],
            decreases n - i,
        {
            cipher.push(self.input[self.pos + i]);
            i = i + 1;
        }
        proof {
            assert(cipher@ =~= old(self)@.input.subrange(
                old(self)@.pos,
                old(self)@.pos + n,
            ));
        }
        let mut fork = self.spongos.fork();
        fork.absorb(shared);
        let plain = fork.decrypt(cipher.as_slice());
        self.pos = self.pos + n;
        Ok(plain)
    }
}

} // verus!
