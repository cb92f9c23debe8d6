//! Message addressing.
//!
//! An [`Address`] names one message: the stream-wide [`AppAddr`] (32 bytes,
//! fixed at stream creation) plus the per-message [`MsgId`] (12 bytes,
//! derived deterministically from the publisher, topic and cursor).

use vstd::prelude::*;
use crate::ddml::be_bytes;
use crate::id::{id_encoding, Identifier};
use crate::sponge;
use crate::sponge::{sp_absorb, sp_commit, sp_new, sp_squeeze, Spongos};

verus! {

/// Length in bytes of an application address.
pub const APP_ADDR_LENGTH: usize = 32;

/// Length in bytes of a message identifier.
pub const MSGID_LENGTH: usize = 12;

/// The 32-byte identifier of a stream.
#[derive(Clone, Debug, PartialEq, Eq, Hash)]
pub struct AppAddr {
    bytes: Vec<u8>,
}

impl View for AppAddr {
    type V = Seq<u8>;

    closed spec fn view(&self) -> Seq<u8> {
        self.bytes@
    }
}

impl AppAddr {
    pub open spec fn wf(&self) -> bool {
        self@.len() == 32
    }

    /// Wrap raw bytes as an application address.
    pub fn from_bytes(bytes: Vec<u8>) -> (r: AppAddr)
        ensures
            r@ == bytes@,
    {
        AppAddr { bytes }
    }

    pub fn as_bytes(&self) -> (r: &Vec<u8>)
        ensures
            r@ == self@,
    {
        &self.bytes
    }
}

/// The 12-byte relative identifier of a message within a stream.
#[derive(Clone, Debug, PartialEq, Eq, Hash)]
pub struct MsgId {
    bytes: Vec<u8>,
}

impl View for MsgId {
    type V = Seq<u8>;

    closed spec fn view(&self) -> Seq<u8> {
        self.bytes@
    }
}

impl MsgId {
    pub open spec fn wf(&self) -> bool {
        self@.len() == 12
    }

    /// Wrap raw bytes as a message identifier.
    pub fn from_bytes(bytes: Vec<u8>) -> (r: MsgId)
        ensures
            r@ == bytes@,
    {
        MsgId { bytes }
    }

    pub fn as_bytes(&self) -> (r: &Vec<u8>)
        ensures
            r@ == self@,
    {
        &self.bytes
    }

    /// Byte-wise equality.
    pub fn equals(&self, other: &MsgId) -> (r: bool)
        ensures
            r == (self@ == other@),
    {
        crate::address::bytes_eq(&self.bytes, &other.bytes)
    }
}


/// Deterministic derivation of an application address from the author
/// identifier and a one-time nonce.
pub open spec fn appaddr_of(author: Identifier, nonce: u64) -> Seq<u8> {
    sp_squeeze(
        sp_commit(sp_absorb(sp_new(), id_encoding(author) + be_bytes(nonce as int, 8))),
        32,
    ).1
}

/// Deterministic derivation of a message identifier from the stream
/// address, the publisher, the topic and the cursor.
pub open spec fn msgid_of(app: Seq<u8>, publisher: Identifier, topic: Seq<u8>, cursor: u32)
    -> Seq<u8> {
    sp_squeeze(
        sp_commit(
            sp_absorb(
                sp_new(),
                app + id_encoding(publisher) + topic + be_bytes(cursor as int, 4),
            ),
        ),
        12,
    ).1
}

impl AppAddr {
    /// Derive the stream address for `author` and `nonce`.
    pub fn gen(author: &Identifier, nonce: u64) -> (r: AppAddr)
        ensures
            r@ == appaddr_of(*author, nonce),
            r.wf(),
    {
        let mut s = Spongos::new();
        let enc = author.encode();
        s.absorb(enc.as_slice());
        let nb = crate::ddml::be_encode(nonce, 8);
        s.absorb(nb.as_slice());
        proof {
            crate::sponge::lemma_sp_absorb_append(sp_new(), enc@, nb@);
            crate::sponge::lemma_sp_squeeze_len(
                sp_commit(sp_absorb(sp_new(), id_encoding(*author) + be_bytes(nonce as int, 8))),
                32,
            );
        }
        s.commit();
        AppAddr { bytes: s.squeeze(32) }
    }
}

impl MsgId {
    /// Derive the message identifier for `(app, publisher, topic, cursor)`:
    /// a pure function of its inputs.
    pub fn gen(app: &AppAddr, publisher: &Identifier, topic: &Vec<u8>, cursor: u32) -> (r: MsgId)
        ensures
            r@ == msgid_of(app@, *publisher, topic@, cursor),
            r.wf(),
    {
        let mut s = Spongos::new();
        s.absorb(app.as_bytes().as_slice());
        let enc = publisher.encode();
        s.absorb(enc.as_slice());
        s.absorb(topic.as_slice());
        let cb = crate::ddml::be_encode(cursor as u64, 4);
        s.absorb(cb.as_slice());
        proof {
            crate::sponge::lemma_sp_absorb_append(sp_new(), app@, enc@);
            crate::sponge::lemma_sp_absorb_append(sp_new(), app@ + enc@, topic@);
            crate::sponge::lemma_sp_absorb_append(sp_new(), (app@ + enc@) + topic@, cb@);
            assert(((app@ + enc@) + topic@) + cb@ =~= app@ + id_encoding(*publisher) + topic@
                + be_bytes(cursor as int, 4));
            crate::sponge::lemma_sp_squeeze_len(
                sp_commit(
                    sp_absorb(
                        sp_new(),
                        app@ + id_encoding(*publisher) + topic@ + be_bytes(cursor as int, 4),
                    ),
                ),
                12,
            );
        }
        s.commit();
        MsgId { bytes: s.squeeze(12) }
    }
}

/// Byte-wise equality of two byte vectors.
pub fn bytes_eq(a: &Vec<u8>, b: &Vec<u8>) -> (r: bool)
    ensures
        r == (a@ == b@),
{
    if a.len() != b.len() {
        return false;
    }
    let mut i: usize = 0;
    while i < a.len()
        invariant
            a@.len() == b@.len(),
            i <= a@.len(),
            forall|j: int| 0 <= j < i ==> a@[j] == b@[j],
        decreases a@.len() - i,
    {
        if a[i] != b[i] {
            return false;
        }
        i = i + 1;
    }
    proof {
        assert(a@ =~= b@);
    }
    true
}

/// A full message address: stream plus relative part.
#[derive(Clone, Debug, PartialEq, Eq, Hash)]
pub struct Address {
    base: AppAddr,
    relative: MsgId,
}

impl View for Address {
    type V = (Seq<u8>, Seq<u8>);

    closed spec fn view(&self) -> (Seq<u8>, Seq<u8>) {
        (self.base@, self.relative@)
    }
}

impl Address {
    pub open spec fn wf(&self) -> bool {
        self@.0.len() == 32 && self@.1.len() == 12
    }

    pub fn new(base: AppAddr, relative: MsgId) -> (r: Address)
        ensures
            r@ == (base@, relative@),
    {
        Address { base, relative }
    }

    pub fn base(&self) -> (r: &AppAddr)
        ensures
            r@ == self@.0,
    {
        &self.base
    }

    pub fn relative(&self) -> (r: &MsgId)
        ensures
            r@ == self@.1,
    {
        &self.relative
    }

    pub fn into_relative(self) -> (r: MsgId)
        ensures
            r@ == self@.1,
    {
        self.relative
    }

    /// A structural copy.
    pub fn dup(&self) -> (r: Address)
        ensures
            r@ == self@,
    {
        Address {
            base: AppAddr { bytes: crate::id::vec_dup(&self.base.bytes) },
            relative: MsgId { bytes: crate::id::vec_dup(&self.relative.bytes) },
        }
    }

    /// The opaque 32-byte transport index of this address.
    pub fn to_msg_index(&self) -> (r: Vec<u8>)
        requires
            self.wf(),
        ensures
            r@ == msg_index_of(self@.0, self@.1),
            r@.len() == 32,
    {
        let mut s = Spongos::new();
        s.absorb(self.base.as_bytes().as_slice());
        s.absorb(self.relative.as_bytes().as_slice());
        s.commit();
        s.squeeze(32)
    }
}

/// Transport index derivation: permute the stream address and relative
/// identifier, then read 32 bytes.
pub open spec fn msg_index_of(app: Seq<u8>, msgid: Seq<u8>) -> Seq<u8> {
    sponge::sp_squeeze(
        sponge::sp_commit(sponge::sp_absorb(sponge::sp_absorb(sponge::sp_new(), app), msgid)),
        32,
    ).1
}

} // verus!
