//! Wire messages.
//!
//! Every on-wire blob is a header ([`hdf::HDF`]) followed by one typed body;
//! the transport adds no framing of its own. The five body schemas live in
//! the submodules.

pub mod announcement;
pub mod hdf;
pub mod keyload;
pub mod packet;
pub mod subscription;
pub mod unsubscription;

use vstd::prelude::*;
use crate::address::Address;
use crate::id::Identifier;
use crate::sponge::{sp_absorb, sp_commit, sp_new, sp_squeeze, Spongos};

verus! {

/// A short byte string that partitions the channel into independent
/// publisher branches.
pub type Topic = Vec<u8>;

/// Wire frame types.
pub const FRAME_ANNOUNCEMENT: u8 = 1;

pub const FRAME_SUBSCRIPTION: u8 = 2;

pub const FRAME_UNSUBSCRIPTION: u8 = 3;

pub const FRAME_KEYLOAD: u8 = 4;

pub const FRAME_SIGNED_PACKET: u8 = 5;

pub const FRAME_TAGGED_PACKET: u8 = 6;

/// The protocol version written in every header.
pub const ENCODING_VERSION: u8 = 1;

/// The 16-byte hash under which a topic appears in headers.
pub open spec fn topic_hash_of(topic: Seq<u8>) -> Seq<u8> {
    sp_squeeze(sp_commit(sp_absorb(sp_new(), topic)), 16).1
}

/// Compute the 16-byte topic hash.
pub fn topic_hash(topic: &Vec<u8>) -> (r: Vec<u8>)
    ensures
        r@ == topic_hash_of(topic@),
        r@.len() == 16,
{
    let mut s = Spongos::new();
    s.absorb(topic.as_slice());
    s.commit();
    proof {
        crate::sponge::lemma_sp_squeeze_len(sp_commit(sp_absorb(sp_new(), topic@)), 16);
    }
    s.squeeze(16)
}

/// An opaque binary message as the transport carries it.
#[derive(Clone, Debug, PartialEq, Eq)]
pub struct TransportMessage {
    bytes: Vec<u8>,
}

impl View for TransportMessage {
    type V = Seq<u8>;

    closed spec fn view(&self) -> Seq<u8> {
        self.bytes@
    }
}

impl TransportMessage {
    pub fn new(bytes: Vec<u8>) -> (r: TransportMessage)
        ensures
            r@ == bytes@,
    {
        TransportMessage { bytes }
    }

    pub fn as_bytes(&self) -> (r: &Vec<u8>)
        ensures
            r@ == self@,
    {
        &self.bytes
    }

    pub fn into_bytes(self) -> (r: Vec<u8>)
        ensures
            r@ == self@,
    {
        self.bytes
    }

    /// A structural copy.
    pub fn dup(&self) -> (r: TransportMessage)
        ensures
            r@ == self@,
    {
        TransportMessage { bytes: crate::id::vec_dup(&self.bytes) }
    }
}

/// A message blob retained because its declared parent has not been seen.
#[derive(Clone, Debug, PartialEq)]
pub struct Orphan {
    /// The unprocessed blob, kept for a later round.
    pub message: TransportMessage,
    /// The sequence number its header declared.
    pub cursor: u32,
}

/// The decoded content of one handled message.
#[derive(Clone, Debug, PartialEq)]
pub enum MessageContent {
    Announcement { author_id: Identifier },
    Subscription { subscriber_id: Identifier },
    Unsubscription { subscriber_id: Identifier },
    /// `readable` says whether this user could derive the session key.
    Keyload { recipients: Vec<Identifier>, readable: bool },
    SignedPacket { publisher: Identifier, public_payload: Vec<u8>, masked_payload: Vec<u8> },
    TaggedPacket { public_payload: Vec<u8>, masked_payload: Vec<u8> },
    /// The parent is not yet known: the blob is handed back for retry.
    Orphan(Orphan),
}

impl MessageContent {
    pub fn is_orphan(&self) -> (r: bool)
        ensures
            r == (*self matches MessageContent::Orphan(_)),
    {
        match self {
            MessageContent::Orphan(_) => true,
            _ => false,
        }
    }

    /// The public payload of a packet, if this is one.
    pub fn public_payload(&self) -> (r: Option<&Vec<u8>>)
        ensures
            (*self matches MessageContent::SignedPacket { public_payload, .. } ==> (
            r matches Some(v) && v@ == public_payload@)),
            (*self matches MessageContent::TaggedPacket { public_payload, .. } ==> (
            r matches Some(v) && v@ == public_payload@)),
    {
        match self {
            MessageContent::SignedPacket { public_payload, .. } => Some(public_payload),
            MessageContent::TaggedPacket { public_payload, .. } => Some(public_payload),
            _ => None,
        }
    }

    /// The masked payload of a packet, if this is one.
    pub fn masked_payload(&self) -> (r: Option<&Vec<u8>>)
        ensures
            (*self matches MessageContent::SignedPacket { masked_payload, .. } ==> (
            r matches Some(v) && v@ == masked_payload@)),
            (*self matches MessageContent::TaggedPacket { masked_payload, .. } ==> (
            r matches Some(v) && v@ == masked_payload@)),
    {
        match self {
            MessageContent::SignedPacket { masked_payload, .. } => Some(masked_payload),
            MessageContent::TaggedPacket { masked_payload, .. } => Some(masked_payload),
            _ => None,
        }
    }
}

/// One handled message: where it sat, its header, and its decoded content.
#[derive(Clone, Debug, PartialEq)]
pub struct Message {
    pub address: Address,
    pub header: hdf::HDF,
    pub content: MessageContent,
}

impl Message {
    pub fn address(&self) -> (r: &Address)
        ensures
            r == &self.address,
    {
        &self.address
    }

    pub fn header(&self) -> (r: &hdf::HDF)
        ensures
            r == &self.header,
    {
        &self.header
    }

    pub fn is_orphan(&self) -> (r: bool)
        ensures
            r == (self.content matches MessageContent::Orphan(_)),
    {
        self.content.is_orphan()
    }
}


// ---------------------------------------------------------------------------
// The shared "masked identifier, then signature" section. Announcements,
// subscriptions and unsubscriptions all consist of exactly this body.
// ---------------------------------------------------------------------------

/// Hash that the signer signs: squeeze after masking the identifier.
pub open spec fn sigsec_hash(sp: crate::sponge::SpView, signer: Identifier) -> Seq<u8> {
    crate::sponge::sp_squeeze(
        crate::sponge::sp_commit(
            crate::sponge::sp_encrypt(sp, crate::id::id_encoding(signer)).0,
        ),
        64,
    ).1
}

/// Wire bytes of the section: ciphertext of the identifier encoding, then
/// the signature.
pub open spec fn sigsec_wire(sp: crate::sponge::SpView, signer: Identifier, sig: Seq<u8>)
    -> Seq<u8> {
    crate::sponge::sp_encrypt(sp, crate::id::id_encoding(signer)).1 + sig
}

/// Sponge state after the section.
pub open spec fn sigsec_sp(sp: crate::sponge::SpView, signer: Identifier, sig: Seq<u8>)
    -> crate::sponge::SpView {
    crate::sponge::sp_commit(
        crate::sponge::sp_absorb(
            crate::sponge::sp_squeeze(
                crate::sponge::sp_commit(
                    crate::sponge::sp_encrypt(sp, crate::id::id_encoding(signer)).0,
                ),
                64,
            ).0,
            sig,
        ),
    )
}

/// Specification-level parser of the section: the signer's public key, the
/// final sponge state, and the cursor after the section.
#[verifier::opaque]
pub open spec fn sigsec_parse(sp: crate::sponge::SpView, input: Seq<u8>, pos: int) -> Option<
    (Seq<u8>, crate::sponge::SpView, int),
> {
    if pos + 97 <= input.len() {
        let c1 = input.subrange(pos, pos + 33);
        let d = crate::sponge::sp_decrypt(sp, c1);
        if d.1[0] == 0u8 {
            let pk = d.1.skip(1);
            let sp2 = crate::sponge::sp_commit(d.0);
            let hash = crate::sponge::sp_squeeze(sp2, 64).1;
            let sp3 = crate::sponge::sp_squeeze(sp2, 64).0;
            let sig = input.subrange(pos + 33, pos + 97);
            if crate::id::ed25519_accepts(pk, hash, sig) {
                Some((pk, crate::sponge::sp_commit(crate::sponge::sp_absorb(sp3, sig)), pos + 97))
            } else {
                None
            }
        } else {
            None
        }
    } else {
        None
    }
}

/// Section length under the *sizeof* context: a masked 33-byte identifier
/// and a 64-byte signature.
pub fn sizeof_sigsec(ctx: &mut crate::ddml::sizeof::Context) -> (r: Result<
    (),
    crate::error::Error,
>)
    ensures
        r is Ok ==> final(ctx).size_spec() == old(ctx).size_spec() + 97,
        r is Err ==> old(ctx).size_spec() + 97 > u64::MAX,
{
    ctx.mask_bytes(33)?;
    ctx.commit()?;
    ctx.squeeze_emit(64)?;
    ctx.commit()
}

/// Emit the section: mask the signer's identifier and sign the squeeze.
pub fn wrap_sigsec(ctx: &mut crate::ddml::wrap::Context, signer: &crate::id::Identity) -> (r:
    Result<(), crate::error::Error>)
    requires
        signer.wf(),
        crate::ddml::wrap::ctx_wf(old(ctx)@),
    ensures
        r is Ok,
        crate::ddml::wrap::ctx_wf(final(ctx)@),
        ({
            let hash = sigsec_hash(old(ctx)@.sp, signer.identifier_spec());
            let sig = crate::id::ed25519_sig(signer.sk_spec(), hash);
            r is Ok ==> final(ctx)@.out == old(ctx)@.out + sigsec_wire(
                old(ctx)@.sp,
                signer.identifier_spec(),
                sig,
            ) && final(ctx)@.sp == sigsec_sp(old(ctx)@.sp, signer.identifier_spec(), sig)
                && final(ctx)@.out.len() == old(ctx)@.out.len() + 97 && sig.len() == 64
                && crate::id::ed25519_accepts(
                crate::id::id_payload(signer.identifier_spec()),
                hash,
                sig,
            )
        }),
{
    let ghost sp0 = ctx@.sp;
    let author = signer.identifier();
    let enc = author.encode();
    ctx.mask_bytes(enc.as_slice())?;
    ctx.commit()?;
    let hash = ctx.squeeze_local(64);
    let sig = signer.sign(hash.as_slice());
    ctx.absorb_bytes(sig.as_slice())?;
    ctx.commit()?;
    proof {
        crate::sponge::lemma_sp_encrypt_len(sp0, enc@);
        assert(ctx@.out =~= old(ctx)@.out + sigsec_wire(
            sp0,
            signer.identifier_spec(),
            sig@,
        ));
    }
    Ok(())
}

/// Parse and verify the section: the executable mirror of [`sigsec_parse`].
/// Succeeds exactly when the spec parser does.
pub fn unwrap_sigsec(ctx: &mut crate::ddml::unwrap::Context) -> (r: Result<
    Identifier,
    crate::error::Error,
>)
    requires
        crate::ddml::unwrap::ctx_wf(old(ctx)@),
    ensures
        crate::ddml::unwrap::ctx_wf(final(ctx)@),
        final(ctx)@.input == old(ctx)@.input,
        r is Ok <==> sigsec_parse(old(ctx)@.sp, old(ctx)@.input, old(ctx)@.pos) is Some,
        r matches Ok(signer) ==> ({
            let parsed = sigsec_parse(old(ctx)@.sp, old(ctx)@.input, old(ctx)@.pos)->Some_0;
            crate::id::id_tag(signer) == 0 && crate::id::id_wf(signer) && crate::id::id_payload(
                signer,
            ) == parsed.0 && final(ctx)@.sp == parsed.1 && final(ctx)@.pos == parsed.2
        }),
{
    proof {
        reveal(sigsec_parse);
    }
    let ghost sp0 = ctx@.sp;
    let ghost pos0 = ctx@.pos;
    if ctx.remaining() < 97 {
        return Err(crate::error::Error::Encoding("signed section", "wire"));
    }
    let encv = match ctx.mask_bytes(33) {
        Ok(v) => v,
        Err(e) => {
            return Err(e);
        },
    };
    if encv[0] != 0 {
        return Err(crate::error::Error::Encoding("signer", "oneof"));
    }
    let mut pk: Vec<u8> = Vec::new();
    let mut i: usize = 1;
    while i < 33
        invariant
            1 <= i <= 33,
            encv@.len() == 33,
            pk@.len() == i - 1,
            forall|j: int| 0 <= j < i - 1 ==> pk@[j] == encv@[j + 1],
        decreases 33 - i,
    {
        pk.push(encv[i]);
        i = i + 1;
    }
    proof {
        assert(pk@ =~= encv@.skip(1));
    }
    if ctx.commit().is_err() {
        return Err(crate::error::Error::Encoding("signed section", "commit"));
    }
    let hash = ctx.squeeze_local(64);
    let sig = match ctx.absorb_bytes(64) {
        Ok(v) => v,
        Err(e) => {
            return Err(e);
        },
    };
    if !crate::id::ed25519_verify(&pk, hash.as_slice(), &sig) {
        return Err(crate::error::Error::Signature("verifying", "signed section"));
    }
    if ctx.commit().is_err() {
        return Err(crate::error::Error::Encoding("signed section", "commit"));
    }
    proof {
        assert(old(ctx)@.input.subrange(pos0 + 33, pos0 + 97) =~= sig@);
    }
    Ok(Identifier::EdPubKey(pk))
}

/// Round trip of the signed section: parsing the bytes it emitted, on the
/// same sponge state, succeeds, recovers the signer, and leaves the reader
/// in the writer's final state. The acceptance hypothesis is exactly what
/// [`wrap_sigsec`] establishes.
pub proof fn lemma_sigsec_roundtrip(
    sp: crate::sponge::SpView,
    signer: Identifier,
    sig: Seq<u8>,
    rest: Seq<u8>,
)
    requires
        crate::id::id_wf(signer),
        crate::id::id_tag(signer) == 0,
        sig.len() == 64,
        crate::id::ed25519_accepts(crate::id::id_payload(signer), sigsec_hash(sp, signer), sig),
    ensures
        sigsec_parse(sp, sigsec_wire(sp, signer, sig) + rest, 0) matches Some(parsed)
            && parsed.0 == crate::id::id_payload(signer) && parsed.1 == sigsec_sp(
            sp,
            signer,
            sig,
        ) && parsed.2 == 97,
{
    reveal(sigsec_parse);
    let enc = crate::id::id_encoding(signer);
    let input = sigsec_wire(sp, signer, sig) + rest;
    crate::sponge::lemma_sp_encrypt_len(sp, enc);
    let c1 = input.subrange(0, 33);
    assert(c1 =~= crate::sponge::sp_encrypt(sp, enc).1);
    crate::sponge::lemma_decrypt_inverts_encrypt(sp, enc);
    assert(crate::sponge::sp_decrypt(sp, c1).1 == enc);
    assert(enc[0] == 0u8);
    assert(enc.skip(1) =~= crate::id::id_payload(signer));
    assert(input.subrange(33, 97) =~= sig);
}

} // verus!
