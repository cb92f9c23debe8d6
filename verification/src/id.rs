//! Participant identity and identifiers.
//!
//! An [`Identifier`] names a participant on the wire: either an Ed25519
//! public key (32 bytes) or the identifier of a pre-shared key (16 bytes).
//! An [`Identity`] is the private counterpart: the Ed25519 secret key, from
//! which both the signing key pair and the X25519 exchange key pair derive.

use vstd::prelude::*;
use crate::ddml::{sizeof, unwrap, wrap};
use crate::error::Error;
use crate::sponge::{sp_absorb, sp_commit, sp_decrypt, sp_encrypt, sp_new, Spongos};

verus! {

/// Length in bytes of a pre-shared key identifier.
pub const PSKID_SIZE: usize = 16;

/// Length in bytes of a pre-shared key.
pub const PSK_SIZE: usize = 32;

/// A pre-shared 32-byte secret.
pub type Psk = Vec<u8>;

/// The 16-byte name of a pre-shared key.
pub type PskId = Vec<u8>;

// ---------------------------------------------------------------------------
// Trusted Ed25519 / X25519 primitives.
// ---------------------------------------------------------------------------

/// The Ed25519 public key of a 32-byte secret key.
pub uninterp spec fn ed25519_pk(sk: Seq<u8>) -> Seq<u8>;

/// The Ed25519 signature of `msg` under the 32-byte secret key `sk`
/// (Ed25519 signing is deterministic).
pub uninterp spec fn ed25519_sig(sk: Seq<u8>, msg: Seq<u8>) -> Seq<u8>;

/// Whether Ed25519 verification accepts `sig` on `msg` under the encoded
/// public key `pk` (false when `pk` does not decode to a valid key).
pub uninterp spec fn ed25519_accepts(pk: Seq<u8>, msg: Seq<u8>, sig: Seq<u8>) -> bool;

/// Whether 32 bytes decode to a valid Ed25519 public key.
pub uninterp spec fn ed25519_pk_ok(pk: Seq<u8>) -> bool;

/// The X25519 shared secret agreed between the holder of the Ed25519 secret
/// key `ed_sk` and the holder of the Ed25519 public key `peer_ed_pk`, both
/// key pairs converted to Montgomery form.
pub uninterp spec fn x25519_shared(ed_sk: Seq<u8>, peer_ed_pk: Seq<u8>) -> Seq<u8>;

/// Relies on `crypto::signatures::ed25519::SecretKey::{from_bytes,
/// public_key}`: derives the public key of a secret key; every derived
/// public key decodes back to a valid key.
#[verifier::external_body]
fn ed25519_derive_pk(sk: &Vec<u8>) -> (r: Vec<u8>)
    requires
        sk@.len() == 32,
    ensures
        r@ == ed25519_pk(sk@),
        r@.len() == 32,
        ed25519_pk_ok(r@),
{
    let arr: [u8; 32] = sk.as_slice().try_into().unwrap();
    crypto::signatures::ed25519::SecretKey::from_bytes(&arr).public_key().to_bytes().to_vec()
}

/// Relies on `crypto::signatures::ed25519::SecretKey::sign`: deterministic
/// Ed25519 signing; the produced signature verifies under the corresponding
/// public key.
#[verifier::external_body]
fn ed25519_sign_hash(sk: &Vec<u8>, msg: &[u8]) -> (r: Vec<u8>)
    requires
        sk@.len() == 32,
    ensures
        r@ == ed25519_sig(sk@, msg@),
        r@.len() == 64,
        ed25519_accepts(ed25519_pk(sk@), msg@, r@),
{
    let arr: [u8; 32] = sk.as_slice().try_into().unwrap();
    crypto::signatures::ed25519::SecretKey::from_bytes(&arr).sign(msg).to_bytes().to_vec()
}

/// Relies on `crypto::signatures::ed25519::PublicKey::{try_from_bytes,
/// verify}`: acceptance of a signature is a function of key, message and
/// signature bytes alone; an undecodable key accepts nothing.
#[verifier::external_body]
pub(crate) fn ed25519_verify(pk: &Vec<u8>, msg: &[u8], sig: &Vec<u8>) -> (r: bool)
    requires
        pk@.len() == 32,
        sig@.len() == 64,
    ensures
        r == ed25519_accepts(pk@, msg@, sig@),
{
    let pk_arr: [u8; 32] = pk.as_slice().try_into().unwrap();
    let sig_arr: [u8; 64] = sig.as_slice().try_into().unwrap();
    match crypto::signatures::ed25519::PublicKey::try_from_bytes(pk_arr) {
        Ok(p) => p.verify(&crypto::signatures::ed25519::Signature::from_bytes(sig_arr), msg),
        Err(_) => false,
    }
}

/// Relies on `crypto::signatures::ed25519::PublicKey::try_from_bytes`:
/// whether 32 bytes decode to a valid public key.
#[verifier::external_body]
fn ed25519_pk_check(b: &Vec<u8>) -> (r: bool)
    requires
        b@.len() == 32,
    ensures
        r == ed25519_pk_ok(b@),
{
    let arr: [u8; 32] = b.as_slice().try_into().unwrap();
    crypto::signatures::ed25519::PublicKey::try_from_bytes(arr).is_ok()
}

/// Relies on `crypto::keys::x25519`: the secret key converted from an
/// Ed25519 secret key (via the SHA-512 scalar) agrees with the public key
/// converted from the peer's Ed25519 public key (via the Montgomery form of
/// the same curve point), so both parties of a key pair compute the same
/// Diffie-Hellman secret. Fails exactly when the peer bytes do not decode
/// to a valid Ed25519 public key.
#[verifier::external_body]
fn x25519_exchange(ed_sk: &Vec<u8>, peer_ed_pk: &Vec<u8>) -> (r: Result<Vec<u8>, Error>)
    requires
        ed_sk@.len() == 32,
        peer_ed_pk@.len() == 32,
    ensures
        r is Ok <==> ed25519_pk_ok(peer_ed_pk@),
        r matches Ok(v) ==> v@ == x25519_shared(ed_sk@, peer_ed_pk@) && v@.len() == 32,
        r matches Ok(v) ==> forall|other_sk: Seq<u8>|
            peer_ed_pk@ == ed25519_pk(other_sk) ==> v@ == x25519_shared(
                other_sk,
                ed25519_pk(ed_sk@),
            ),
{
    let sk_arr: [u8; 32] = ed_sk.as_slice().try_into().unwrap();
    let pk_arr: [u8; 32] = peer_ed_pk.as_slice().try_into().unwrap();
    let ed_secret = crypto::signatures::ed25519::SecretKey::from_bytes(&sk_arr);
    let x_secret = crypto::keys::x25519::SecretKey::from(&ed_secret);
    let ed_public = crypto::signatures::ed25519::PublicKey::try_from_bytes(pk_arr)
        .map_err(|_| Error::Crypto("decode exchange key"))?;
    let x_public = crypto::keys::x25519::PublicKey::try_from(&ed_public)
        .map_err(|_| Error::Crypto("convert exchange key"))?;
    Ok(x_secret.diffie_hellman(&x_public).as_bytes().to_vec())
}

/// Relies on `crypto::utils::rand::fill`: fills a buffer from the operating
/// system's recommended entropy source. Nothing is promised of the outcome
/// but its length; failures of the entropy source surface as errors.
#[verifier::external_body]
pub(crate) fn random_bytes(n: usize) -> (r: Result<Vec<u8>, Error>)
    ensures
        r matches Ok(v) ==> v@.len() == n,
{
    let mut buf = vec![0u8; n];
    crypto::utils::rand::fill(&mut buf).map_err(|_| Error::Crypto("entropy source"))?;
    Ok(buf)
}

// ---------------------------------------------------------------------------
// Identifier.
// ---------------------------------------------------------------------------

/// A participant's wire identifier.
#[derive(Clone, Debug, PartialEq, Eq, Hash)]
pub enum Identifier {
    /// An Ed25519 public key (32 bytes).
    EdPubKey(Vec<u8>),
    /// The identifier of a pre-shared key (16 bytes).
    PskId(Vec<u8>),
}

/// The wire tag of an identifier.
pub open spec fn id_tag(id: Identifier) -> u8 {
    match id {
        Identifier::EdPubKey(_) => 0u8,
        Identifier::PskId(_) => 1u8,
    }
}

/// The payload bytes of an identifier.
pub open spec fn id_payload(id: Identifier) -> Seq<u8> {
    match id {
        Identifier::EdPubKey(pk) => pk@,
        Identifier::PskId(p) => p@,
    }
}

/// Well-formed identifiers carry a payload of the length their tag fixes.
pub open spec fn id_wf(id: Identifier) -> bool {
    match id {
        Identifier::EdPubKey(pk) => pk@.len() == 32,
        Identifier::PskId(p) => p@.len() == 16,
    }
}

/// Tagged-contents equality: two identifiers are equal exactly when tag and
/// payload agree.
pub open spec fn id_eq_spec(a: Identifier, b: Identifier) -> bool {
    id_tag(a) == id_tag(b) && id_payload(a) == id_payload(b)
}

/// The tagged byte encoding `tag ‖ payload`.
pub open spec fn id_encoding(id: Identifier) -> Seq<u8> {
    seq![id_tag(id)] + id_payload(id)
}

/// Whether an identifier's payload has the length its tag fixes.
pub fn id_wf_exec(id: &Identifier) -> (r: bool)
    ensures
        r == id_wf(*id),
{
    match id {
        Identifier::EdPubKey(pk) => pk.len() == 32,
        Identifier::PskId(p) => p.len() == PSKID_SIZE,
    }
}

/// Equal encodings name equal identifiers: the byte encoding is injective.
pub proof fn lemma_id_encoding_injective(a: Identifier, b: Identifier)
    requires
        id_encoding(a) == id_encoding(b),
    ensures
        id_eq_spec(a, b),
{
    assert(id_encoding(a)[0] == id_tag(a));
    assert(id_encoding(b)[0] == id_tag(b));
    assert(id_payload(a) =~= id_encoding(a).skip(1));
    assert(id_payload(b) =~= id_encoding(b).skip(1));
}

/// Copy a byte vector.
pub fn vec_dup(v: &Vec<u8>) -> (r: Vec<u8>)
    ensures
        r@ == v@,
{
    let mut r: Vec<u8> = Vec::new();
    let mut i: usize = 0;
    while i < v.len()
        invariant
            i <= v@.len(),
            r@.len() == i,
            forall|j: int| 0 <= j < i ==> r@[j] == v@[j],
        decreases v@.len() - i,
    {
        r.push(v[i]);
        i = i + 1;
    }
    proof {
        assert(r@ =~= v@);
    }
    r
}

impl Identifier {
    /// The raw payload bytes (without the tag).
    pub fn to_bytes(&self) -> (r: Vec<u8>)
        ensures
            r@ == id_payload(*self),
    {
        match self {
            Identifier::EdPubKey(pk) => vec_dup(pk),
            Identifier::PskId(p) => vec_dup(p),
        }
    }

    /// Recover an identifier from raw payload bytes, dispatching on length:
    /// 32 bytes must decode to a valid Ed25519 key; 16 bytes name a
    /// pre-shared key; every other length is rejected.
    pub fn from_bytes(bytes: &Vec<u8>) -> (r: Result<Identifier, Error>)
        ensures
            r matches Ok(id) ==> id_wf(id) && id_payload(id) == bytes@ && (bytes@.len() == 32
                ==> id_tag(id) == 0 && ed25519_pk_ok(bytes@)) && (bytes@.len() == 16 ==> id_tag(
                id,
            ) == 1),
            r is Ok <==> (bytes@.len() == 32 && ed25519_pk_ok(bytes@)) || bytes@.len() == 16,
    {
        if bytes.len() == 32 {
            if ed25519_pk_check(bytes) {
                Ok(Identifier::EdPubKey(vec_dup(bytes)))
            } else {
                Err(Error::Crypto("decode public key"))
            }
        } else if bytes.len() == PSKID_SIZE {
            Ok(Identifier::PskId(vec_dup(bytes)))
        } else {
            Err(Error::InvalidSize("identifier", 32, bytes.len() as u64))
        }
    }

    /// The public key, for Ed25519 identifiers.
    pub fn get_pk(&self) -> (r: Option<&Vec<u8>>)
        ensures
            *self matches Identifier::EdPubKey(pk) ==> (r matches Some(v) && v@ == pk@),
            *self matches Identifier::PskId(_) ==> r is None,
    {
        if let Identifier::EdPubKey(pk) = self {
            Some(pk)
        } else {
            None
        }
    }

    /// A structural copy.
    pub fn dup(&self) -> (r: Identifier)
        ensures
            id_eq_spec(r, *self),
            id_tag(r) == id_tag(*self),
            id_payload(r) == id_payload(*self),
    {
        match self {
            Identifier::EdPubKey(pk) => Identifier::EdPubKey(vec_dup(pk)),
            Identifier::PskId(p) => Identifier::PskId(vec_dup(p)),
        }
    }

    /// Tagged-contents equality.
    pub fn equals(&self, other: &Identifier) -> (r: bool)
        ensures
            r == id_eq_spec(*self, *other),
    {
        match (self, other) {
            (Identifier::EdPubKey(a), Identifier::PskId(b)) => false,
            (Identifier::PskId(a), Identifier::EdPubKey(b)) => false,
            (Identifier::EdPubKey(a), Identifier::EdPubKey(b)) => crate::address::bytes_eq(a, b),
            (Identifier::PskId(a), Identifier::PskId(b)) => crate::address::bytes_eq(a, b),
        }
    }


    /// The tagged byte encoding `tag ‖ payload`.
    pub fn encode(&self) -> (r: Vec<u8>)
        ensures
            r@ == id_encoding(*self),
            r@.len() == 1 + id_payload(*self).len(),
    {
        let mut r: Vec<u8> = Vec::new();
        match self {
            Identifier::EdPubKey(pk) => {
                r.push(0);
                let mut i: usize = 0;
                while i < pk.len()
                    invariant
                        i <= pk@.len(),
                        r@.len() == i + 1,
                        r@[0] == 0u8,
                        forall|j: int| 0 <= j < i ==> r@[j + 1] == pk@[j],
                    decreases pk@.len() - i,
                {
                    r.push(pk[i]);
                    i = i + 1;
                }
            },
            Identifier::PskId(p) => {
                r.push(1);
                let mut i: usize = 0;
                while i < p.len()
                    invariant
                        i <= p@.len(),
                        r@.len() == i + 1,
                        r@[0] == 1u8,
                        forall|j: int| 0 <= j < i ==> r@[j + 1] == p@[j],
                    decreases p@.len() - i,
                {
                    r.push(p[i]);
                    i = i + 1;
                }
            },
        }
        proof {
            assert(r@ =~= id_encoding(*self));
        }
        r
    }

    /// Run the identifier schema under the *sizeof* context: one tag byte
    /// plus the payload.
    pub fn sizeof(&self, ctx: &mut sizeof::Context) -> (r: Result<(), Error>)
        requires
            id_wf(*self),
        ensures
            r is Ok ==> final(ctx).size_spec() == old(ctx).size_spec() + 1 + id_payload(
                *self,
            ).len(),
            r is Err ==> old(ctx).size_spec() + 1 + id_payload(*self).len() > u64::MAX,
    {
        match self {
            Identifier::EdPubKey(pk) => {
                ctx.absorb_u8()?;
                ctx.absorb_bytes(pk.len())?;
                Ok(())
            },
            Identifier::PskId(p) => {
                ctx.absorb_u8()?;
                ctx.mask_bytes(p.len())?;
                Ok(())
            },
        }
    }

    /// Run the identifier schema under the *wrap* context: absorb the tag,
    /// then absorb an Ed25519 key or mask a pre-shared-key identifier.
    pub fn wrap(&self, ctx: &mut wrap::Context) -> (r: Result<(), Error>)
        requires
            id_wf(*self),
            wrap::ctx_wf(old(ctx)@),
        ensures
            r is Ok,
            wrap::ctx_wf(final(ctx)@),
            final(ctx)@.sp == wrap_id_sp(old(ctx)@.sp, *self),
            final(ctx)@.out == old(ctx)@.out + wrap_id_bytes(old(ctx)@.sp, *self),
            final(ctx)@.out.len() == old(ctx)@.out.len() + 1 + id_payload(*self).len(),
    {
        let ghost pre = ctx@;
        match self {
            Identifier::EdPubKey(pk) => {
                ctx.absorb_u8(0)?;
                ctx.absorb_bytes(pk.as_slice())?;
                proof {
                    crate::sponge::lemma_sp_absorb_append(pre.sp, seq![0u8], pk@);
                    assert((pre.out + seq![0u8]) + pk@ =~= pre.out + (seq![0u8] + pk@));
                }
                Ok(())
            },
            Identifier::PskId(p) => {
                ctx.absorb_u8(1)?;
                proof {
                    let mid = sp_absorb(pre.sp, seq![1u8]);
                    assert((pre.out + seq![1u8]) + sp_encrypt(mid, p@).1 =~= pre.out + (seq![
                        1u8,
                    ] + sp_encrypt(mid, p@).1));
                }
                ctx.mask_bytes(p.as_slice())?;
                proof {
                    crate::sponge::lemma_sp_encrypt_len(sp_absorb(pre.sp, seq![1u8]), p@);
                }
                Ok(())
            },
        }
    }
}

/// Sponge state after wrapping (or unwrapping) an identifier.
pub open spec fn wrap_id_sp(sp: crate::sponge::SpView, id: Identifier) -> crate::sponge::SpView {
    match id {
        Identifier::EdPubKey(pk) => sp_absorb(sp, seq![0u8] + pk@),
        Identifier::PskId(p) => sp_encrypt(sp_absorb(sp, seq![1u8]), p@).0,
    }
}

/// Wire bytes an identifier contributes when wrapped on state `sp`.
pub open spec fn wrap_id_bytes(sp: crate::sponge::SpView, id: Identifier) -> Seq<u8> {
    match id {
        Identifier::EdPubKey(pk) => seq![0u8] + pk@,
        Identifier::PskId(p) => seq![1u8] + sp_encrypt(sp_absorb(sp, seq![1u8]), p@).1,
    }
}

/// Success condition of [`unwrap_new`]: a known tag with a full payload
/// behind it, and for an Ed25519 tag a payload that decodes to a valid key.
pub open spec fn id_parses(sp: crate::sponge::SpView, input: Seq<u8>, pos: int) -> bool {
    pos + 1 <= input.len() && ((input[pos] == 0u8 && pos + 33 <= input.len() && ed25519_pk_ok(
        input.subrange(pos + 1, pos + 33),
    )) || (input[pos] == 1u8 && pos + 17 <= input.len()))
}

/// Read an identifier from an *unwrap* context: the dual of
/// [`Identifier::wrap`]. Succeeds exactly when a known tag is followed by a
/// full payload (a valid Ed25519 key, or a pre-shared-key name); a tag
/// outside the schema is a hard error, and no error consumes more than the
/// tag byte.
pub fn unwrap_new(ctx: &mut unwrap::Context) -> (r: Result<Identifier, Error>)
    requires
        unwrap::ctx_wf(old(ctx)@),
    ensures
        unwrap::ctx_wf(final(ctx)@),
        final(ctx)@.input == old(ctx)@.input,
        r is Ok <==> id_parses(old(ctx)@.sp, old(ctx)@.input, old(ctx)@.pos),
        r matches Ok(id) ==> id_wf(id) && ed25519_pk_ok_for(id) && final(ctx)@.sp == wrap_id_sp(
            old(ctx)@.sp,
            id,
        ) && final(ctx)@.pos == old(ctx)@.pos + 1 + id_payload(id).len() && old(ctx)@.pos + 1
            + id_payload(id).len() <= old(ctx)@.input.len() && id_tag(id)
            == old(ctx)@.input[old(ctx)@.pos] && old(ctx)@.input.subrange(
            old(ctx)@.pos,
            old(ctx)@.pos + 1 + id_payload(id).len(),
        ) == wrap_id_bytes(old(ctx)@.sp, id) && id_payload(id) == id_parse_payload(
            old(ctx)@.sp,
            old(ctx)@.input,
            old(ctx)@.pos,
        ) && final(ctx)@.sp == id_parse_sp(old(ctx)@.sp, old(ctx)@.input, old(ctx)@.pos)
            && final(ctx)@.pos == id_parse_end(old(ctx)@.input, old(ctx)@.pos) && (id_tag(id)
            == 0 ==> id_payload(id) == old(ctx)@.input.subrange(
            old(ctx)@.pos + 1,
            old(ctx)@.pos + 33,
        )) && (id_tag(id) == 1 ==> id_payload(id) == sp_decrypt(
            sp_absorb(old(ctx)@.sp, seq![1u8]),
            old(ctx)@.input.subrange(old(ctx)@.pos + 1, old(ctx)@.pos + 17),
        ).1),
        r is Err ==> final(ctx)@.pos <= old(ctx)@.pos + 33,
        r is Err && old(ctx)@.pos < old(ctx)@.input.len() && old(ctx)@.input[old(ctx)@.pos]
            != 0u8 && old(ctx)@.input[old(ctx)@.pos] != 1u8 ==> final(ctx)@.pos == old(
            ctx,
        )@.pos + 1,
{
    let tag = ctx.absorb_u8()?;
    if tag == 0 {
        let ghost mid = ctx@;
        let pk = match ctx.absorb_bytes(32) {
            Ok(v) => v,
            Err(e) => {
                return Err(e);
            },
        };
        if !ed25519_pk_check(&pk) {
            return Err(Error::Crypto("decode public key"));
        }
        proof {
            crate::sponge::lemma_sp_absorb_append(old(ctx)@.sp, seq![0u8], pk@);
            assert(seq![0u8] + pk@ =~= old(ctx)@.input.subrange(
                old(ctx)@.pos,
                old(ctx)@.pos + 33,
            ));
        }
        Ok(Identifier::EdPubKey(pk))
    } else if tag == 1 {
        let p = match ctx.mask_bytes(PSKID_SIZE) {
            Ok(v) => v,
            Err(e) => {
                return Err(e);
            },
        };
        proof {
            crate::sponge::lemma_encrypt_inverts_decrypt(
                sp_absorb(old(ctx)@.sp, seq![1u8]),
                old(ctx)@.input.subrange(old(ctx)@.pos + 1, old(ctx)@.pos + 17),
            );
            assert(seq![1u8] + old(ctx)@.input.subrange(old(ctx)@.pos + 1, old(ctx)@.pos + 17)
                =~= old(ctx)@.input.subrange(old(ctx)@.pos, old(ctx)@.pos + 17));
        }
        Ok(Identifier::PskId(p))
    } else {
        Err(Error::Encoding("identifier", "oneof"))
    }
}

/// For an Ed25519 identifier, whether the payload decodes to a valid key;
/// holds trivially of pre-shared-key names.
pub open spec fn ed25519_pk_ok_for(id: Identifier) -> bool {
    id_tag(id) == 0 ==> ed25519_pk_ok(id_payload(id))
}

/// Sponge state after parsing the identifier at `pos` (given
/// [`id_parses`]).
pub open spec fn id_parse_sp(sp: crate::sponge::SpView, input: Seq<u8>, pos: int)
    -> crate::sponge::SpView {
    if input[pos] == 0u8 {
        sp_absorb(sp, input.subrange(pos, pos + 33))
    } else {
        sp_decrypt(sp_absorb(sp, seq![1u8]), input.subrange(pos + 1, pos + 17)).0
    }
}

/// Payload bytes of the identifier parsed at `pos`.
pub open spec fn id_parse_payload(sp: crate::sponge::SpView, input: Seq<u8>, pos: int)
    -> Seq<u8> {
    if input[pos] == 0u8 {
        input.subrange(pos + 1, pos + 33)
    } else {
        sp_decrypt(sp_absorb(sp, seq![1u8]), input.subrange(pos + 1, pos + 17)).1
    }
}

/// Position just past the identifier parsed at `pos`.
pub open spec fn id_parse_end(input: Seq<u8>, pos: int) -> int {
    if input[pos] == 0u8 {
        pos + 33
    } else {
        pos + 17
    }
}

// ---------------------------------------------------------------------------
// Identity.
// ---------------------------------------------------------------------------

/// Derivation of a secret key from a seed: absorb the seed, commit, squeeze.
pub open spec fn seed_sk(seed: Seq<u8>) -> Seq<u8> {
    crate::sponge::sp_squeeze(sp_commit(sp_absorb(sp_new(), seed)), 32).1
}

/// The private counterpart of an Ed25519 [`Identifier`].
pub struct Identity {
    sk: Vec<u8>,
    pk: Vec<u8>,
}

impl Identity {
    pub closed spec fn wf(&self) -> bool {
        self.sk@.len() == 32 && self.pk@ == ed25519_pk(self.sk@) && self.pk@.len() == 32
    }

    pub closed spec fn sk_spec(&self) -> Seq<u8> {
        self.sk@
    }

    pub closed spec fn pk_spec(&self) -> Seq<u8> {
        self.pk@
    }

    /// The identifier this identity exposes, at specification level.
    pub closed spec fn identifier_spec(&self) -> Identifier {
        Identifier::EdPubKey(self.pk)
    }

    /// Derive an identity deterministically from a seed.
    pub fn from_seed(seed: &[u8]) -> (r: Identity)
        ensures
            r.wf(),
            r.sk_spec() == seed_sk(seed@),
    {
        let mut s = Spongos::new();
        s.absorb(seed);
        s.commit();
        let sk = s.squeeze(32);
        let pk = ed25519_derive_pk(&sk);
        Identity { sk, pk }
    }

    /// The public identifier of this identity.
    pub fn identifier(&self) -> (r: Identifier)
        requires
            self.wf(),
        ensures
            id_wf(r),
            r matches Identifier::EdPubKey(pk) && pk@ == self.pk_spec(),
            id_tag(r) == 0,
            id_payload(r) == ed25519_pk(self.sk_spec()),
            id_eq_spec(r, self.identifier_spec()),
            id_tag(self.identifier_spec()) == 0,
            id_payload(self.identifier_spec()) == ed25519_pk(self.sk_spec()),
            id_wf(self.identifier_spec()),
    {
        Identifier::EdPubKey(vec_dup(&self.pk))
    }

    /// Sign a squeezed hash.
    pub fn sign(&self, hash: &[u8]) -> (r: Vec<u8>)
        requires
            self.wf(),
        ensures
            r@ == ed25519_sig(self.sk_spec(), hash@),
            r@.len() == 64,
            ed25519_accepts(ed25519_pk(self.sk_spec()), hash@, r@),
            ed25519_accepts(id_payload(self.identifier_spec()), hash@, r@),
            id_payload(self.identifier_spec()) == ed25519_pk(self.sk_spec()),
            id_tag(self.identifier_spec()) == 0,
            id_wf(self.identifier_spec()),
    {
        ed25519_sign_hash(&self.sk, hash)
    }

    /// Agree a shared exchange secret with a peer named by an Ed25519
    /// identifier.
    pub fn exchange(&self, peer: &Identifier) -> (r: Result<Vec<u8>, Error>)
        requires
            self.wf(),
            id_wf(*peer),
        ensures
            r matches Ok(v) ==> id_tag(*peer) == 0 && v@ == x25519_shared(
                self.sk_spec(),
                id_payload(*peer),
            ) && v@.len() == 32,
            r matches Ok(v) ==> forall|other_sk: Seq<u8>|
                id_payload(*peer) == ed25519_pk(other_sk) ==> v@ == x25519_shared(
                    other_sk,
                    ed25519_pk(self.sk_spec()),
                ),
            r is Ok <==> id_tag(*peer) == 0 && ed25519_pk_ok(id_payload(*peer)),
    {
        match peer {
            Identifier::EdPubKey(pk) => x25519_exchange(&self.sk, pk),
            Identifier::PskId(_) => Err(Error::Crypto("exchange with a pre-shared key name")),
        }
    }
}

} // verus!
