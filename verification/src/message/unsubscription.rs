//! The `Unsubscribe` message: a reader leaves the stream.
//!
//! The body masks the departing subscriber's identifier and signs, linked
//! to the subscriber's last branch head.

use vstd::prelude::*;
use crate::ddml::{sizeof, unwrap, wrap};
use crate::error::Error;
use crate::id::{id_payload, id_tag, id_wf, Identifier, Identity};
use crate::message::{sigsec_parse, sigsec_sp, sigsec_wire, sizeof_sigsec, unwrap_sigsec,
    wrap_sigsec};

verus! {

/// Body wire length: the masked 33-byte identifier and a 64-byte signature.
pub const UNSUBSCRIPTION_BODY_LEN: usize = 97;

/// Body length under the *sizeof* context.
pub fn sizeof_unsubscription(ctx: &mut sizeof::Context) -> (r: Result<(), Error>)
    ensures
        r is Ok ==> final(ctx).size_spec() == old(ctx).size_spec() + 97,
        r is Err ==> old(ctx).size_spec() + 97 > u64::MAX,
{
    sizeof_sigsec(ctx)
}

/// Emit an unsubscription body signed by the departing subscriber.
pub fn wrap_unsubscription(ctx: &mut wrap::Context, subscriber: &Identity) -> (r: Result<
    (),
    Error,
>)
    requires
        subscriber.wf(),
        wrap::ctx_wf(old(ctx)@),
    ensures
        r is Ok,
        wrap::ctx_wf(final(ctx)@),
        ({
            let hash = crate::message::sigsec_hash(old(ctx)@.sp, subscriber.identifier_spec());
            let sig = crate::id::ed25519_sig(subscriber.sk_spec(), hash);
            r is Ok ==> final(ctx)@.out == old(ctx)@.out + sigsec_wire(
                old(ctx)@.sp,
                subscriber.identifier_spec(),
                sig,
            ) && final(ctx)@.sp == sigsec_sp(old(ctx)@.sp, subscriber.identifier_spec(), sig)
                && final(ctx)@.out.len() == old(ctx)@.out.len() + 97 && sig.len() == 64
                && crate::id::ed25519_accepts(id_payload(subscriber.identifier_spec()), hash, sig)
        }),
{
    wrap_sigsec(ctx, subscriber)
}

/// Parse and verify an unsubscription body: who left.
pub fn unwrap_unsubscription(ctx: &mut unwrap::Context) -> (r: Result<Identifier, Error>)
    requires
        unwrap::ctx_wf(old(ctx)@),
    ensures
        unwrap::ctx_wf(final(ctx)@),
        final(ctx)@.input == old(ctx)@.input,
        r is Ok <==> sigsec_parse(old(ctx)@.sp, old(ctx)@.input, old(ctx)@.pos) is Some,
        r matches Ok(subscriber) ==> ({
            let parsed = sigsec_parse(old(ctx)@.sp, old(ctx)@.input, old(ctx)@.pos)->Some_0;
            id_tag(subscriber) == 0 && id_wf(subscriber) && id_payload(subscriber) == parsed.0
                && final(ctx)@.sp == parsed.1 && final(ctx)@.pos == parsed.2
        }),
{
    unwrap_sigsec(ctx)
}

} // verus!
