//! The `Announce` message: the genesis of a stream.
//!
//! The body masks the author's identifier, then signs: after a commit the
//! sponge squeezes a 64-byte hash, the author's Ed25519 key signs it, and
//! the signature is absorbed. Verification replays the same schema.

use vstd::prelude::*;
use crate::ddml::{sizeof, unwrap, wrap};
use crate::error::Error;
use crate::id::{id_payload, id_tag, id_wf, Identifier, Identity};
use crate::message::{sigsec_parse, sigsec_sp, sigsec_wire, sizeof_sigsec, unwrap_sigsec,
    wrap_sigsec};

verus! {

/// Body wire length: the masked 33-byte identifier and a 64-byte signature.
pub const ANNOUNCEMENT_BODY_LEN: usize = 97;

/// An announcement about to be wrapped: who owns the stream.
pub struct Wrap<'a> {
    /// The identity that signs the announcement.
    pub user_id: &'a Identity,
}

impl<'a> Wrap<'a> {
    pub fn new(user_id: &'a Identity) -> (r: Wrap<'a>)
        ensures
            r.user_id == user_id,
    {
        Wrap { user_id }
    }
}

/// Body length under the *sizeof* context.
pub fn sizeof_announcement(ctx: &mut sizeof::Context, announcement: &Wrap<'_>) -> (r: Result<
    (),
    Error,
>)
    requires
        announcement.user_id.wf(),
    ensures
        r is Ok ==> final(ctx).size_spec() == old(ctx).size_spec() + 97,
        r is Err ==> old(ctx).size_spec() + 97 > u64::MAX,
{
    sizeof_sigsec(ctx)
}

/// Emit an announcement body.
pub fn wrap_announcement(ctx: &mut wrap::Context, announcement: &Wrap<'_>) -> (r: Result<
    (),
    Error,
>)
    requires
        announcement.user_id.wf(),
        wrap::ctx_wf(old(ctx)@),
    ensures
        r is Ok,
        wrap::ctx_wf(final(ctx)@),
        ({
            let hash = crate::message::sigsec_hash(
                old(ctx)@.sp,
                announcement.user_id.identifier_spec(),
            );
            let sig = crate::id::ed25519_sig(announcement.user_id.sk_spec(), hash);
            r is Ok ==> final(ctx)@.out == old(ctx)@.out + sigsec_wire(
                old(ctx)@.sp,
                announcement.user_id.identifier_spec(),
                sig,
            ) && final(ctx)@.sp == sigsec_sp(
                old(ctx)@.sp,
                announcement.user_id.identifier_spec(),
                sig,
            ) && final(ctx)@.out.len() == old(ctx)@.out.len() + 97 && sig.len() == 64
                && crate::id::ed25519_accepts(
                id_payload(announcement.user_id.identifier_spec()),
                hash,
                sig,
            )
        }),
{
    wrap_sigsec(ctx, announcement.user_id)
}

/// A decoded announcement: the stream owner's identifier.
#[derive(Clone, Debug, PartialEq)]
pub struct Unwrap {
    author_id: Identifier,
}

impl Unwrap {
    /// An empty placeholder, as unwrapping starts from.
    pub fn default() -> (r: Unwrap)
        ensures
            id_tag(r.author_id_spec()) == 0,
            id_payload(r.author_id_spec()).len() == 0,
    {
        Unwrap { author_id: Identifier::EdPubKey(Vec::new()) }
    }

    pub closed spec fn author_id_spec(&self) -> Identifier {
        self.author_id
    }

    pub fn author_id(&self) -> (r: &Identifier)
        ensures
            *r == self.author_id_spec(),
    {
        &self.author_id
    }

    pub fn into_author_id(self) -> (r: Identifier)
        ensures
            r == self.author_id_spec(),
    {
        self.author_id
    }
}

/// Parse and verify an announcement body. Succeeds exactly when the spec
/// parser [`sigsec_parse`] does, and returns the author it names.
pub fn unwrap_announcement(ctx: &mut unwrap::Context) -> (r: Result<Unwrap, Error>)
    requires
        unwrap::ctx_wf(old(ctx)@),
    ensures
        unwrap::ctx_wf(final(ctx)@),
        final(ctx)@.input == old(ctx)@.input,
        r is Ok <==> sigsec_parse(old(ctx)@.sp, old(ctx)@.input, old(ctx)@.pos) is Some,
        r matches Ok(u) ==> ({
            let parsed = sigsec_parse(old(ctx)@.sp, old(ctx)@.input, old(ctx)@.pos)->Some_0;
            id_tag(u.author_id_spec()) == 0 && id_wf(u.author_id_spec()) && id_payload(
                u.author_id_spec(),
            ) == parsed.0 && final(ctx)@.sp == parsed.1 && final(ctx)@.pos == parsed.2
        }),
{
    let author_id = unwrap_sigsec(ctx)?;
    Ok(Unwrap { author_id })
}

} // verus!
