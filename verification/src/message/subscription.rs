//! The `Subscribe` message: a reader announces itself to the author.
//!
//! The body masks the subscriber's identifier and a one-time exchange
//! ephemeral, then signs: after a commit the sponge squeezes a 64-byte
//! hash, the subscriber's Ed25519 key signs it, and the signature is
//! absorbed.

use vstd::prelude::*;
use crate::ddml::{sizeof, unwrap, wrap};
use crate::error::Error;
use crate::id::{
    ed25519_accepts, id_encoding, id_payload, id_tag, id_wf, Identifier, Identity,
};
use crate::sponge::{sp_absorb, sp_commit, sp_decrypt, sp_encrypt, sp_squeeze, SpView};

verus! {

/// Body wire length: the masked 33-byte identifier, a masked 32-byte
/// exchange ephemeral, and a 64-byte signature.
pub const SUBSCRIPTION_BODY_LEN: usize = 129;

/// Hash that the subscriber signs: squeeze after masking identifier and
/// ephemeral.
pub open spec fn subscription_hash(sp: SpView, signer: Identifier, eph: Seq<u8>) -> Seq<u8> {
    sp_squeeze(
        sp_commit(sp_encrypt(sp_encrypt(sp, id_encoding(signer)).0, eph).0),
        64,
    ).1
}

/// Wire bytes of a subscription body.
pub open spec fn subscription_wire(sp: SpView, signer: Identifier, eph: Seq<u8>, sig: Seq<u8>)
    -> Seq<u8> {
    sp_encrypt(sp, id_encoding(signer)).1 + sp_encrypt(
        sp_encrypt(sp, id_encoding(signer)).0,
        eph,
    ).1 + sig
}

/// Sponge state after a subscription body.
pub open spec fn subscription_sp(sp: SpView, signer: Identifier, eph: Seq<u8>, sig: Seq<u8>)
    -> SpView {
    sp_commit(
        sp_absorb(
            sp_squeeze(
                sp_commit(sp_encrypt(sp_encrypt(sp, id_encoding(signer)).0, eph).0),
                64,
            ).0,
            sig,
        ),
    )
}

/// Specification-level parser of a subscription body: the subscriber's
/// public key, the final sponge state, and the position after the body.
/// `None` exactly where [`unwrap_subscription`] errors.
#[verifier::opaque]
pub open spec fn subscription_parse(sp: SpView, input: Seq<u8>, pos: int) -> Option<
    (Seq<u8>, SpView, int),
> {
    if pos + 129 <= input.len() {
        let c1 = input.subrange(pos, pos + 33);
        let d = sp_decrypt(sp, c1);
        if d.1[0] == 0u8 {
            let pk = d.1.skip(1);
            let d2 = sp_decrypt(d.0, input.subrange(pos + 33, pos + 65));
            let sp2 = sp_commit(d2.0);
            let hash = sp_squeeze(sp2, 64).1;
            let sp3 = sp_squeeze(sp2, 64).0;
            let sig = input.subrange(pos + 65, pos + 129);
            if ed25519_accepts(pk, hash, sig) {
                Some((pk, sp_commit(sp_absorb(sp3, sig)), pos + 129))
            } else {
                None
            }
        } else {
            None
        }
    } else {
        None
    }
}

/// Body length under the *sizeof* context.
pub fn sizeof_subscription(ctx: &mut sizeof::Context) -> (r: Result<(), Error>)
    ensures
        r is Ok ==> final(ctx).size_spec() == old(ctx).size_spec() + 129,
        r is Err ==> old(ctx).size_spec() + 129 > u64::MAX,
{
    ctx.mask_bytes(33)?;
    ctx.mask_bytes(32)?;
    ctx.commit()?;
    ctx.squeeze_emit(64)?;
    ctx.commit()
}

/// Emit a subscription body: mask the subscriber's identifier and the
/// one-time exchange ephemeral, then sign.
pub fn wrap_subscription(
    ctx: &mut wrap::Context,
    subscriber: &Identity,
    ephemeral: &Vec<u8>,
) -> (r: Result<(), Error>)
    requires
        subscriber.wf(),
        ephemeral@.len() == 32,
        wrap::ctx_wf(old(ctx)@),
    ensures
        r is Ok,
        wrap::ctx_wf(final(ctx)@),
        ({
            let signer = subscriber.identifier_spec();
            let hash = subscription_hash(old(ctx)@.sp, signer, ephemeral@);
            let sig = crate::id::ed25519_sig(subscriber.sk_spec(), hash);
            r is Ok ==> final(ctx)@.out == old(ctx)@.out + subscription_wire(
                old(ctx)@.sp,
                signer,
                ephemeral@,
                sig,
            ) && final(ctx)@.sp == subscription_sp(old(ctx)@.sp, signer, ephemeral@, sig)
                && final(ctx)@.out.len() == old(ctx)@.out.len() + 129 && sig.len() == 64
                && ed25519_accepts(id_payload(signer), hash, sig)
        }),
{
    let ghost sp0 = ctx@.sp;
    let signer = subscriber.identifier();
    let enc = signer.encode();
    ctx.mask_bytes(enc.as_slice())?;
    ctx.mask_bytes(ephemeral.as_slice())?;
    ctx.commit()?;
    let hash = ctx.squeeze_local(64);
    let sig = subscriber.sign(hash.as_slice());
    ctx.absorb_bytes(sig.as_slice())?;
    ctx.commit()?;
    proof {
        crate::sponge::lemma_sp_encrypt_len(sp0, enc@);
        crate::sponge::lemma_sp_encrypt_len(sp_encrypt(sp0, enc@).0, ephemeral@);
        assert(ctx@.out =~= old(ctx)@.out + subscription_wire(
            sp0,
            subscriber.identifier_spec(),
            ephemeral@,
            sig@,
        ));
    }
    Ok(())
}

/// Parse and verify a subscription body: who subscribed. Succeeds exactly
/// when [`subscription_parse`] does; the read ephemeral serves no further
/// purpose here (exchange keys derive from Ed25519 identities) and is
/// dropped.
pub fn unwrap_subscription(ctx: &mut unwrap::Context) -> (r: Result<Identifier, Error>)
    requires
        unwrap::ctx_wf(old(ctx)@),
    ensures
        unwrap::ctx_wf(final(ctx)@),
        final(ctx)@.input == old(ctx)@.input,
        r is Ok <==> subscription_parse(old(ctx)@.sp, old(ctx)@.input, old(ctx)@.pos) is Some,
        r matches Ok(subscriber) ==> ({
            let parsed = subscription_parse(
                old(ctx)@.sp,
                old(ctx)@.input,
                old(ctx)@.pos,
            )->Some_0;
            id_tag(subscriber) == 0 && id_wf(subscriber) && id_payload(subscriber) == parsed.0
                && final(ctx)@.sp == parsed.1 && final(ctx)@.pos == parsed.2
        }),
{
    proof {
        reveal(subscription_parse);
    }
    let ghost sp0 = ctx@.sp;
    let ghost pos0 = ctx@.pos;
    if ctx.remaining() < SUBSCRIPTION_BODY_LEN {
        return Err(Error::Encoding("subscription", "wire"));
    }
    let encv = match ctx.mask_bytes(33) {
        Ok(v) => v,
        Err(e) => {
            return Err(e);
        },
    };
    if encv[0] != 0 {
        return Err(Error::Encoding("subscriber", "oneof"));
    }
    let mut pk: Vec<u8> = Vec::new();
    let mut i: usize = 1;
    while i < 33
        invariant
            1 <= i <= 33,
            encv@.len() == 33,
            pk@.len() == i - 1,
            forall|j: int| 0 <= j < i - 1 ==> pk@[j] == encv@[j + 1],
        decreases 33 - i,
    {
        pk.push(encv[i]);
        i = i + 1;
    }
    proof {
        assert(pk@ =~= encv@.skip(1));
    }
    let _ephemeral = match ctx.mask_bytes(32) {
        Ok(v) => v,
        Err(e) => {
            return Err(e);
        },
    };
    if ctx.commit().is_err() {
        return Err(Error::Encoding("subscription", "commit"));
    }
    let hash = ctx.squeeze_local(64);
    let sig = match ctx.absorb_bytes(64) {
        Ok(v) => v,
        Err(e) => {
            return Err(e);
        },
    };
    if !crate::id::ed25519_verify(&pk, hash.as_slice(), &sig) {
        return Err(Error::Signature("verifying", "subscription"));
    }
    if ctx.commit().is_err() {
        return Err(Error::Encoding("subscription", "commit"));
    }
    proof {
        assert(old(ctx)@.input.subrange(pos0 + 33, pos0 + 65) =~= old(ctx)@.input.subrange(
            pos0 + 33,
            pos0 + 65,
        ));
        assert(old(ctx)@.input.subrange(pos0 + 65, pos0 + 129) =~= sig@);
    }
    Ok(Identifier::EdPubKey(pk))
}

} // verus!
