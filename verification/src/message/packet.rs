//! `SignedPacket` and `TaggedPacket`: the payload-carrying messages.
//!
//! Both absorb a `size`-prefixed public payload and mask a `size`-prefixed
//! masked payload. A signed packet then signs the squeezed hash; a tagged
//! packet instead emits a 32-byte squeeze that the reader checks, so it is
//! authenticated by sponge state alone.

use vstd::prelude::*;
use crate::ddml::{be_bytes, size_bytes, size_len, size_parsed_val, size_parses, sizeof, unwrap, wrap};
use crate::ddml::unwrap::{masked_size_k, masked_size_parses, masked_size_val};
use crate::id::ed25519_accepts;
use crate::sponge::sp_decrypt;
use crate::error::Error;
use crate::id::{ed25519_sig, id_payload, Identity};
use crate::sponge::{sp_absorb, sp_commit, sp_encrypt, sp_squeeze, SpView};

verus! {

/// Sponge state after the two payload sections (before any tag/signature).
pub open spec fn packet_core_sp(sp: SpView, public: Seq<u8>, masked: Seq<u8>) -> SpView {
    let s1 = sp_absorb(sp, size_bytes(public.len() as int));
    let s2 = sp_absorb(s1, public);
    let s3 = sp_encrypt(s2, size_bytes(masked.len() as int)).0;
    let s4 = sp_encrypt(s3, masked).0;
    sp_commit(s4)
}

/// Wire bytes of the two payload sections.
pub open spec fn packet_core_wire(sp: SpView, public: Seq<u8>, masked: Seq<u8>) -> Seq<u8> {
    let s1 = sp_absorb(sp, size_bytes(public.len() as int));
    let s2 = sp_absorb(s1, public);
    let s3 = sp_encrypt(s2, size_bytes(masked.len() as int)).0;
    size_bytes(public.len() as int) + public + sp_encrypt(
        s2,
        size_bytes(masked.len() as int),
    ).1 + sp_encrypt(s3, masked).1
}

/// Wire length of the two payload sections.
pub open spec fn packet_core_len(public: Seq<u8>, masked: Seq<u8>) -> int {
    (size_len(public.len() as int) + 1) + public.len() as int + (size_len(
        masked.len() as int,
    ) + 1) + masked.len() as int
}

/// Hash that a signed packet signs.
pub open spec fn signed_packet_hash(sp: SpView, public: Seq<u8>, masked: Seq<u8>) -> Seq<u8> {
    sp_squeeze(packet_core_sp(sp, public, masked), 64).1
}

/// Sponge state after a signed packet body.
pub open spec fn signed_packet_sp(sp: SpView, public: Seq<u8>, masked: Seq<u8>, sig: Seq<u8>)
    -> SpView {
    sp_commit(sp_absorb(sp_squeeze(packet_core_sp(sp, public, masked), 64).0, sig))
}

/// Sponge state after a tagged packet body.
pub open spec fn tagged_packet_sp(sp: SpView, public: Seq<u8>, masked: Seq<u8>) -> SpView {
    sp_commit(sp_squeeze(packet_core_sp(sp, public, masked), 32).0)
}


/// Round trip, stated as injectivity: on one sponge state, the wire bytes
/// of the payload sections determine the payloads. Together with the
/// unwrap contracts (which return exactly the payloads whose wire is the
/// consumed input) this pins parsing a wrapped packet down to the original
/// payloads.
pub proof fn lemma_packet_wire_determines_payloads(
    sp: SpView,
    p1: Seq<u8>,
    m1: Seq<u8>,
    p2: Seq<u8>,
    m2: Seq<u8>,
)
    requires
        packet_core_wire(sp, p1, m1) == packet_core_wire(sp, p2, m2),
        p1.len() <= u64::MAX,
        p2.len() <= u64::MAX,
        m1.len() <= u64::MAX,
        m2.len() <= u64::MAX,
    ensures
        p1 == p2,
        m1 == m2,
{
    let w = packet_core_wire(sp, p1, m1);
    let k1 = size_len(p1.len() as int);
    let k2 = size_len(p2.len() as int);
    crate::ddml::lemma_size_len_bound(p1.len() as u64);
    crate::ddml::lemma_size_len_bound(p2.len() as u64);
    crate::ddml::lemma_be_val_of_bytes(p1.len() as int, k1);
    crate::ddml::lemma_be_val_of_bytes(p2.len() as int, k2);
    assert(w[0] == k1 as u8);
    assert(w[0] == k2 as u8);
    assert(k1 == k2);
    assert(w.subrange(1, 1 + k1 as int) =~= be_bytes(p1.len() as int, k1));
    assert(w.subrange(1, 1 + k2 as int) =~= be_bytes(p2.len() as int, k2));
    assert(p1.len() == p2.len());
    let o = 1 + k1 as int + p1.len() as int;
    assert(w.subrange(1 + k1 as int, o) =~= p1);
    assert(w.subrange(1 + k1 as int, o) =~= p2);
    assert(p1 =~= p2);
    // Same prefix, so both sides mask on the same state from here on.
    let s2 = crate::sponge::sp_absorb(
        crate::sponge::sp_absorb(sp, size_bytes(p1.len() as int)),
        p1,
    );
    let c1 = crate::sponge::sp_encrypt(s2, size_bytes(m1.len() as int)).1;
    let c2 = crate::sponge::sp_encrypt(s2, size_bytes(m2.len() as int)).1;
    crate::sponge::lemma_sp_encrypt_len(s2, size_bytes(m1.len() as int));
    crate::sponge::lemma_sp_encrypt_len(s2, size_bytes(m2.len() as int));
    crate::ddml::lemma_size_len_bound(m1.len() as u64);
    crate::ddml::lemma_size_len_bound(m2.len() as u64);
    crate::ddml::lemma_be_val_of_bytes(m1.len() as int, size_len(m1.len() as int));
    crate::ddml::lemma_be_val_of_bytes(m2.len() as int, size_len(m2.len() as int));
    // The first masked byte decrypts to the length-of-length on both
    // sides, so the masked size fields have one length.
    crate::sponge::lemma_decrypt_inverts_encrypt(s2, size_bytes(m1.len() as int));
    crate::sponge::lemma_decrypt_inverts_encrypt(s2, size_bytes(m2.len() as int));
    assert(c1[0] == w[o]);
    assert(c2[0] == w[o]);
    crate::sponge::lemma_sp_decrypt_prefix(s2, c1, 1);
    crate::sponge::lemma_sp_decrypt_prefix(s2, c2, 1);
    assert(c1.take(1) =~= c2.take(1));
    assert(crate::sponge::sp_decrypt(s2, c1.take(1)).1 == crate::sponge::sp_decrypt(
        s2,
        c2.take(1),
    ).1);
    assert(crate::sponge::sp_decrypt(s2, c1).1.take(1) =~= seq![
        (size_len(m1.len() as int) as u8),
    ]);
    assert(crate::sponge::sp_decrypt(s2, c2).1.take(1) =~= seq![
        (size_len(m2.len() as int) as u8),
    ]);
    assert(crate::sponge::sp_decrypt(s2, c1).1.take(1) == crate::sponge::sp_decrypt(
        s2,
        c2,
    ).1.take(1));
    assert(seq![(size_len(m1.len() as int) as u8)][0] == seq![
        (size_len(m2.len() as int) as u8),
    ][0]);
    assert((size_len(m1.len() as int) as u8) == (size_len(m2.len() as int) as u8));
    assert(size_len(m1.len() as int) == size_len(m2.len() as int));
    let kk = size_len(m1.len() as int) as int;
    assert(c1.len() == kk + 1 && c2.len() == kk + 1);
    assert(c1 =~= w.subrange(o, o + kk + 1));
    assert(c2 =~= w.subrange(o, o + kk + 1));
    assert(c1 =~= c2);
    assert(size_bytes(m1.len() as int) == crate::sponge::sp_decrypt(s2, c1).1);
    assert(size_bytes(m2.len() as int) == crate::sponge::sp_decrypt(s2, c2).1);
    assert(be_bytes(m1.len() as int, size_len(m1.len() as int)) =~= size_bytes(
        m1.len() as int,
    ).skip(1));
    assert(be_bytes(m2.len() as int, size_len(m2.len() as int)) =~= size_bytes(
        m2.len() as int,
    ).skip(1));
    assert(m1.len() == m2.len());
    let s3 = crate::sponge::sp_encrypt(s2, size_bytes(m1.len() as int)).0;
    let d1 = crate::sponge::sp_encrypt(s3, m1).1;
    let d2 = crate::sponge::sp_encrypt(s3, m2).1;
    crate::sponge::lemma_sp_encrypt_len(s3, m1);
    crate::sponge::lemma_sp_encrypt_len(s3, m2);
    assert(d1 =~= w.subrange(o + kk + 1, o + kk + 1 + m1.len() as int));
    assert(d2 =~= w.subrange(o + kk + 1, o + kk + 1 + m2.len() as int));
    assert(d1 =~= d2);
    crate::sponge::lemma_decrypt_inverts_encrypt(s3, m1);
    crate::sponge::lemma_decrypt_inverts_encrypt(s3, m2);
    assert(m1 == crate::sponge::sp_decrypt(s3, d1).1);
    assert(m2 == crate::sponge::sp_decrypt(s3, d2).1);
}


/// Specification-level parser of the two payload sections: the public and
/// masked payloads, the sponge state after them, and the position after.
/// `None` exactly where [`unwrap_packet_core`] errors.
#[verifier::opaque]
pub open spec fn packet_core_parse(sp: SpView, input: Seq<u8>, pos: int) -> Option<
    (Seq<u8>, Seq<u8>, SpView, int),
> {
    if size_parses(input, pos) && size_parsed_val(input, pos) <= usize::MAX {
        let pl = size_parsed_val(input, pos);
        let p1 = pos + 1 + input[pos];
        if p1 + pl <= input.len() {
            let public = input.subrange(p1, p1 + pl);
            let s2 = sp_absorb(sp_absorb(sp, input.subrange(pos, p1)), public);
            let p2 = p1 + pl;
            if masked_size_parses(s2, input, p2) && masked_size_val(s2, input, p2)
                <= usize::MAX {
                let ml = masked_size_val(s2, input, p2);
                let p3 = p2 + 1 + masked_size_k(s2, input, p2);
                if p3 + ml <= input.len() {
                    let s3 = sp_decrypt(
                        sp_decrypt(s2, input.subrange(p2, p2 + 1)).0,
                        input.subrange(p2 + 1, p3),
                    ).0;
                    let masked = sp_decrypt(s3, input.subrange(p3, p3 + ml)).1;
                    Some(
                        (
                            public,
                            masked,
                            sp_commit(sp_decrypt(s3, input.subrange(p3, p3 + ml)).0),
                            p3 + ml,
                        ),
                    )
                } else {
                    None
                }
            } else {
                None
            }
        } else {
            None
        }
    } else {
        None
    }
}

/// Specification-level parser of a signed packet body under `pk`:
/// `None` exactly where [`unwrap_signed_packet`] errors.
#[verifier::opaque]
pub open spec fn signed_packet_parse(sp: SpView, input: Seq<u8>, pos: int, pk: Seq<u8>)
    -> Option<(Seq<u8>, Seq<u8>, SpView, int)> {
    match packet_core_parse(sp, input, pos) {
        Some(core) => {
            let hash = sp_squeeze(core.2, 64).1;
            let after = sp_squeeze(core.2, 64).0;
            if core.3 + 64 <= input.len() && ed25519_accepts(
                pk,
                hash,
                input.subrange(core.3, core.3 + 64),
            ) {
                Some(
                    (
                        core.0,
                        core.1,
                        sp_commit(sp_absorb(after, input.subrange(core.3, core.3 + 64))),
                        core.3 + 64,
                    ),
                )
            } else {
                None
            }
        },
        None => None,
    }
}

/// Specification-level parser of a tagged packet body:
/// `None` exactly where [`unwrap_tagged_packet`] errors.
#[verifier::opaque]
pub open spec fn tagged_packet_parse(sp: SpView, input: Seq<u8>, pos: int) -> Option<
    (Seq<u8>, Seq<u8>, SpView, int),
> {
    match packet_core_parse(sp, input, pos) {
        Some(core) => {
            if core.3 + 32 <= input.len() && input.subrange(core.3, core.3 + 32)
                == sp_squeeze(core.2, 32).1 {
                Some((core.0, core.1, sp_commit(sp_squeeze(core.2, 32).0), core.3 + 32))
            } else {
                None
            }
        },
        None => None,
    }
}

/// Shared payload part of both packet schemas.
fn wrap_packet_core(ctx: &mut wrap::Context, public: &Vec<u8>, masked: &Vec<u8>) -> (r: Result<
    (),
    Error,
>)
    requires
        wrap::ctx_wf(old(ctx)@),
    ensures
        r is Ok,
        wrap::ctx_wf(final(ctx)@),
        final(ctx)@.sp == packet_core_sp(old(ctx)@.sp, public@, masked@),
        final(ctx)@.out == old(ctx)@.out + packet_core_wire(old(ctx)@.sp, public@, masked@),
        final(ctx)@.out.len() == old(ctx)@.out.len() + packet_core_len(public@, masked@),
{
    let ghost sp0 = ctx@.sp;
    let ghost out0 = ctx@.out;
    ctx.absorb_size(public.len() as u64)?;
    ctx.absorb_bytes(public.as_slice())?;
    let ghost s2 = ctx@.sp;
    ctx.mask_size(masked.len() as u64)?;
    let ghost s3 = ctx@.sp;
    ctx.mask_bytes(masked.as_slice())?;
    ctx.commit()?;
    proof {
        crate::ddml::lemma_size_len_bound(public@.len() as u64);
        crate::ddml::lemma_size_len_bound(masked@.len() as u64);
        crate::ddml::lemma_be_val_of_bytes(
            public@.len() as int,
            size_len(public@.len() as int),
        );
        crate::ddml::lemma_be_val_of_bytes(
            masked@.len() as int,
            size_len(masked@.len() as int),
        );
        crate::sponge::lemma_sp_encrypt_len(s2, size_bytes(masked@.len() as int));
        crate::sponge::lemma_sp_encrypt_len(s3, masked@);
        assert(ctx@.out =~= out0 + packet_core_wire(sp0, public@, masked@));
    }
    Ok(())
}

/// Body length of a signed packet under the *sizeof* context.
pub fn sizeof_signed_packet(
    ctx: &mut sizeof::Context,
    public: &Vec<u8>,
    masked: &Vec<u8>,
) -> (r: Result<(), Error>)
    ensures
        r is Ok ==> final(ctx).size_spec() == old(ctx).size_spec() + packet_core_len(
            public@,
            masked@,
        ) + 64,
{
    ctx.absorb_size(public.len() as u64)?;
    ctx.absorb_bytes(public.len())?;
    ctx.mask_size(masked.len() as u64)?;
    ctx.mask_bytes(masked.len())?;
    ctx.commit()?;
    ctx.squeeze_emit(64)?;
    ctx.commit()
}

/// Body length of a tagged packet under the *sizeof* context.
pub fn sizeof_tagged_packet(
    ctx: &mut sizeof::Context,
    public: &Vec<u8>,
    masked: &Vec<u8>,
) -> (r: Result<(), Error>)
    ensures
        r is Ok ==> final(ctx).size_spec() == old(ctx).size_spec() + packet_core_len(
            public@,
            masked@,
        ) + 32,
{
    ctx.absorb_size(public.len() as u64)?;
    ctx.absorb_bytes(public.len())?;
    ctx.mask_size(masked.len() as u64)?;
    ctx.mask_bytes(masked.len())?;
    ctx.commit()?;
    ctx.squeeze_emit(32)?;
    ctx.commit()
}

/// Emit a signed packet body.
pub fn wrap_signed_packet(
    ctx: &mut wrap::Context,
    signer: &Identity,
    public: &Vec<u8>,
    masked: &Vec<u8>,
) -> (r: Result<(), Error>)
    requires
        signer.wf(),
        wrap::ctx_wf(old(ctx)@),
    ensures
        r is Ok,
        wrap::ctx_wf(final(ctx)@),
        ({
            let hash = signed_packet_hash(old(ctx)@.sp, public@, masked@);
            let sig = ed25519_sig(signer.sk_spec(), hash);
            r is Ok ==> final(ctx)@.sp == signed_packet_sp(old(ctx)@.sp, public@, masked@, sig)
                && final(ctx)@.out == old(ctx)@.out + packet_core_wire(
                old(ctx)@.sp,
                public@,
                masked@,
            ) + sig && final(ctx)@.out.len() == old(ctx)@.out.len() + packet_core_len(
                public@,
                masked@,
            ) + 64 && sig.len() == 64 && crate::id::ed25519_accepts(
                id_payload(signer.identifier_spec()),
                hash,
                sig,
            )
        }),
{
    wrap_packet_core(ctx, public, masked)?;
    let hash = ctx.squeeze_local(64);
    let sig = signer.sign(hash.as_slice());
    ctx.absorb_bytes(sig.as_slice())?;
    ctx.commit()?;
    proof {
        assert(ctx@.out =~= old(ctx)@.out + packet_core_wire(
            old(ctx)@.sp,
            public@,
            masked@,
        ) + sig@);
    }
    Ok(())
}

/// Emit a tagged packet body: sealed by an emitted squeeze, not a signature.
pub fn wrap_tagged_packet(ctx: &mut wrap::Context, public: &Vec<u8>, masked: &Vec<u8>) -> (r:
    Result<(), Error>)
    requires
        wrap::ctx_wf(old(ctx)@),
    ensures
        r is Ok,
        wrap::ctx_wf(final(ctx)@),
        final(ctx)@.sp == tagged_packet_sp(old(ctx)@.sp, public@, masked@),
        final(ctx)@.out == old(ctx)@.out + packet_core_wire(old(ctx)@.sp, public@, masked@)
            + sp_squeeze(packet_core_sp(old(ctx)@.sp, public@, masked@), 32).1,
        final(ctx)@.out.len() == old(ctx)@.out.len() + packet_core_len(public@, masked@) + 32,
{
    wrap_packet_core(ctx, public, masked)?;
    ctx.squeeze_emit(32)?;
    ctx.commit()?;
    proof {
        crate::sponge::lemma_sp_squeeze_len(
            packet_core_sp(old(ctx)@.sp, public@, masked@),
            32,
        );
    }
    Ok(())
}

/// Shared payload part of both packet unwrap schemas: read the public
/// payload, unmask the masked payload. On success the consumed bytes are
/// exactly what wrapping the returned payloads on this state emits.
#[verifier::rlimit(100)]
#[verifier::spinoff_prover]
fn unwrap_packet_core(ctx: &mut unwrap::Context) -> (r: Result<(Vec<u8>, Vec<u8>), Error>)
    requires
        unwrap::ctx_wf(old(ctx)@),
    ensures
        unwrap::ctx_wf(final(ctx)@),
        final(ctx)@.input == old(ctx)@.input,
        r is Ok <==> packet_core_parse(old(ctx)@.sp, old(ctx)@.input, old(ctx)@.pos) is Some,
        r matches Ok(v) ==> ({
            let parsed = packet_core_parse(old(ctx)@.sp, old(ctx)@.input, old(ctx)@.pos)->Some_0;
            v.0@ == parsed.0 && v.1@ == parsed.1 && final(ctx)@.sp == parsed.2 && final(ctx)@.pos == parsed.3
        }),
        r matches Ok(v) ==> ({
            let c = packet_core_len(v.0@, v.1@);
            old(ctx)@.pos + c <= old(ctx)@.input.len() && old(ctx)@.input.subrange(
                old(ctx)@.pos,
                old(ctx)@.pos + c,
            ) == packet_core_wire(old(ctx)@.sp, v.0@, v.1@) && final(ctx)@.sp
                == packet_core_sp(old(ctx)@.sp, v.0@, v.1@) && final(ctx)@.pos == old(ctx)@.pos + c
        }),
{
    proof {
        reveal(packet_core_parse);
    }
    let ghost sp0 = ctx@.sp;
    let ghost pos0 = ctx@.pos;
    let pl = ctx.absorb_size()?;
    if pl > (usize::MAX as u64) {
        return Err(Error::Encoding("public payload", "length"));
    }
    let public = ctx.absorb_bytes(pl as usize)?;
    let ghost s2 = ctx@.sp;
    let ghost pos2 = ctx@.pos;
    let ml = ctx.mask_size()?;
    if ml > (usize::MAX as u64) {
        return Err(Error::Encoding("masked payload", "length"));
    }
    let ghost s3 = ctx@.sp;
    let ghost pos3 = ctx@.pos;
    let masked = ctx.mask_bytes(ml as usize)?;
    ctx.commit()?;
    proof {
        let input = old(ctx)@.input;
        crate::sponge::lemma_encrypt_inverts_decrypt(
            s3,
            input.subrange(pos3, pos3 + ml as int),
        );
        assert(input.subrange(pos0, pos0 + packet_core_len(public@, masked@)) =~= ((
        size_bytes(pl as int) + public@) + input.subrange(pos2, pos3)) + input.subrange(
            pos3,
            pos3 + ml as int,
        ));
        assert(input.subrange(pos0, pos0 + packet_core_len(public@, masked@))
            =~= packet_core_wire(sp0, public@, masked@));
        // Relate the step-by-step reads to the specification parser.
        crate::ddml::lemma_size_len_bound(pl);
        let c1 = size_len(pl as int) + 1;
        assert(input.subrange(pos0, pos0 + c1)[0] == size_len(pl as int) as u8);
        assert(input[pos0] == size_len(pl as int) as u8);
        let p1 = pos0 + 1 + input[pos0];
        assert(public@ =~= input.subrange(p1, p1 + pl as int));
        assert(input.subrange(pos0, p1) =~= size_bytes(pl as int));
        assert(s2 == sp_absorb(sp_absorb(sp0, input.subrange(pos0, p1)), public@));
        // The masked size field: encrypt form and decrypt form agree.
        crate::ddml::lemma_size_len_bound(ml);
        let mc = input.subrange(pos2, pos3);
        crate::sponge::lemma_decrypt_inverts_encrypt(s2, size_bytes(ml as int));
        crate::sponge::lemma_sp_decrypt_append(
            s2,
            input.subrange(pos2, pos2 + 1),
            input.subrange(pos2 + 1, pos3),
        );
        assert(input.subrange(pos2, pos2 + 1) + input.subrange(pos2 + 1, pos3) =~= mc);
        assert(sp_decrypt(s2, mc).1 =~= size_bytes(ml as int));
        assert(masked_size_k(s2, input, pos2) == size_len(ml as int) as u8);
        crate::sponge::lemma_sp_decrypt_len(s2, input.subrange(pos2, pos2 + 1));
        assert(sp_decrypt(s2, mc).1.take(1) =~= sp_decrypt(
            s2,
            input.subrange(pos2, pos2 + 1),
        ).1);
        assert(s3 == sp_decrypt(
            sp_decrypt(s2, input.subrange(pos2, pos2 + 1)).0,
            input.subrange(pos2 + 1, pos3),
        ).0);
    }
    Ok((public, masked))
}

/// Parse and verify a signed packet body under the publisher's public key.
pub fn unwrap_signed_packet(ctx: &mut unwrap::Context, publisher_pk: &Vec<u8>) -> (r: Result<
    (Vec<u8>, Vec<u8>),
    Error,
>)
    requires
        unwrap::ctx_wf(old(ctx)@),
        publisher_pk@.len() == 32,
    ensures
        unwrap::ctx_wf(final(ctx)@),
        final(ctx)@.input == old(ctx)@.input,
        r is Ok <==> signed_packet_parse(
            old(ctx)@.sp,
            old(ctx)@.input,
            old(ctx)@.pos,
            publisher_pk@,
        ) is Some,
        r matches Ok(v) ==> ({
            let parsed = signed_packet_parse(
                old(ctx)@.sp,
                old(ctx)@.input,
                old(ctx)@.pos,
                publisher_pk@,
            )->Some_0;
            v.0@ == parsed.0 && v.1@ == parsed.1 && final(ctx)@.sp == parsed.2 && final(ctx)@.pos == parsed.3
        }),
        r matches Ok(v) ==> ({
            let c = packet_core_len(v.0@, v.1@) + 64;
            let sig = old(ctx)@.input.subrange(old(ctx)@.pos + c - 64, old(ctx)@.pos + c);
            old(ctx)@.pos + c <= old(ctx)@.input.len() && old(ctx)@.input.subrange(
                old(ctx)@.pos,
                old(ctx)@.pos + c - 64,
            ) == packet_core_wire(old(ctx)@.sp, v.0@, v.1@) && crate::id::ed25519_accepts(
                publisher_pk@,
                signed_packet_hash(old(ctx)@.sp, v.0@, v.1@),
                sig,
            ) && final(ctx)@.sp == signed_packet_sp(old(ctx)@.sp, v.0@, v.1@, sig) && final(ctx)@.pos == old(ctx)@.pos + c
        }),
{
    proof {
        reveal(signed_packet_parse);
    }
    let (public, masked) = unwrap_packet_core(ctx)?;
    let hash = ctx.squeeze_local(64);
    let sig = ctx.absorb_bytes(64)?;
    if !crate::id::ed25519_verify(publisher_pk, hash.as_slice(), &sig) {
        return Err(Error::Signature("verifying", "signed packet"));
    }
    ctx.commit()?;
    Ok((public, masked))
}

/// Parse and check a tagged packet body: the reader squeezes the 32-byte
/// tag and compares it with the wire.
pub fn unwrap_tagged_packet(ctx: &mut unwrap::Context) -> (r: Result<(Vec<u8>, Vec<u8>), Error>)
    requires
        unwrap::ctx_wf(old(ctx)@),
    ensures
        unwrap::ctx_wf(final(ctx)@),
        final(ctx)@.input == old(ctx)@.input,
        r is Ok <==> tagged_packet_parse(old(ctx)@.sp, old(ctx)@.input, old(ctx)@.pos) is Some,
        r matches Ok(v) ==> ({
            let parsed = tagged_packet_parse(
                old(ctx)@.sp,
                old(ctx)@.input,
                old(ctx)@.pos,
            )->Some_0;
            v.0@ == parsed.0 && v.1@ == parsed.1 && final(ctx)@.sp == parsed.2 && final(ctx)@.pos == parsed.3
        }),
        r matches Ok(v) ==> ({
            let c = packet_core_len(v.0@, v.1@) + 32;
            old(ctx)@.pos + c <= old(ctx)@.input.len() && old(ctx)@.input.subrange(
                old(ctx)@.pos,
                old(ctx)@.pos + c,
            ) == packet_core_wire(old(ctx)@.sp, v.0@, v.1@) + sp_squeeze(
                packet_core_sp(old(ctx)@.sp, v.0@, v.1@),
                32,
            ).1 && final(ctx)@.sp == tagged_packet_sp(old(ctx)@.sp, v.0@, v.1@) && final(ctx)@.pos == old(ctx)@.pos + c
        }),
{
    proof {
        reveal(tagged_packet_parse);
    }
    let ghost sp0 = ctx@.sp;
    let ghost pos0 = ctx@.pos;
    let (public, masked) = unwrap_packet_core(ctx)?;
    let ghost postag = ctx@.pos;
    ctx.squeeze_verify(32)?;
    ctx.commit()?;
    proof {
        crate::sponge::lemma_sp_squeeze_len(packet_core_sp(sp0, public@, masked@), 32);
        assert(old(ctx)@.input.subrange(pos0, postag + 32) =~= old(ctx)@.input.subrange(
            pos0,
            postag,
        ) + old(ctx)@.input.subrange(postag, postag + 32));
    }
    Ok((public, masked))
}

} // verus!
