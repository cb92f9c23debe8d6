//! The `Keyload` message: distributes a session key to a listed set of
//! recipients.
//!
//! The body absorbs a 16-byte nonce and the recipient count, then for each
//! recipient absorbs the recipient's identifier and masks the session key
//! under a fork keyed with that recipient's session secret (an X25519
//! exchange for Ed25519 recipients, the pre-shared key itself for PSK
//! recipients). The session key is then absorbed into the main sponge - so
//! only listed recipients can follow the branch - and the body is signed.

use vstd::prelude::*;
use crate::ddml::{size_bytes, size_len, sizeof, unwrap, wrap};
use crate::error::Error;
use crate::id::{
    ed25519_pk_ok, id_encoding, id_eq_spec, id_payload, id_tag, id_wf, Identifier, Identity,
    Psk, PskId,
};
use crate::sponge::{sp_absorb, sp_commit, sp_encrypt, sp_squeeze, SpView};

verus! {

/// Wire length of a keyload session-key slot.
pub const KEY_SLOT_LEN: usize = 32;

/// One intended recipient: its identifier and the session secret under
/// which the session key is masked for it.
pub struct KeyloadEntry {
    pub id: Identifier,
    pub shared: Vec<u8>,
}

pub open spec fn entry_wf(e: KeyloadEntry) -> bool {
    id_wf(e.id) && e.shared@.len() == 32
}

/// Combined wire length of the recipient entries.
pub open spec fn entries_len(es: Seq<KeyloadEntry>) -> int
    decreases es.len(),
{
    if es.len() == 0 {
        0
    } else {
        entries_len(es.drop_last()) + 1 + id_payload(es.last().id).len() + 32
    }
}

/// Body wire length of a keyload.
pub open spec fn keyload_body_len(es: Seq<KeyloadEntry>) -> int {
    16 + (size_len(es.len() as int) + 1) + entries_len(es) + 64
}

/// Main sponge state after absorbing the identifiers of the first entries
/// (the session-key slots run in forks and leave the main state alone).
pub open spec fn keyload_main_sp(sp: SpView, es: Seq<KeyloadEntry>) -> SpView
    decreases es.len(),
{
    if es.len() == 0 {
        sp
    } else {
        sp_absorb(keyload_main_sp(sp, es.drop_last()), id_encoding(es.last().id))
    }
}

/// Wire bytes of the recipient entries: each identifier in plaintext, then
/// the session key masked under a fork keyed with that entry's secret.
pub open spec fn keyload_entries_wire(sp: SpView, es: Seq<KeyloadEntry>, key: Seq<u8>)
    -> Seq<u8>
    decreases es.len(),
{
    if es.len() == 0 {
        Seq::empty()
    } else {
        let main = sp_absorb(keyload_main_sp(sp, es.drop_last()), id_encoding(es.last().id));
        keyload_entries_wire(sp, es.drop_last(), key) + id_encoding(es.last().id) + sp_encrypt(
            sp_absorb(main, es.last().shared@),
            key,
        ).1
    }
}

/// Sponge state entering the entry section: nonce and count absorbed.
pub open spec fn keyload_pre_sp(sp: SpView, nonce: Seq<u8>, n: int) -> SpView {
    sp_absorb(sp_absorb(sp, nonce), size_bytes(n))
}

/// Hash that the keyload signs: squeeze after absorbing the session key
/// into the main state.
pub open spec fn keyload_hash(
    sp: SpView,
    nonce: Seq<u8>,
    es: Seq<KeyloadEntry>,
    key: Seq<u8>,
) -> Seq<u8> {
    sp_squeeze(
        sp_commit(
            sp_absorb(keyload_main_sp(keyload_pre_sp(sp, nonce, es.len() as int), es), key),
        ),
        64,
    ).1
}

/// Wire bytes of the whole keyload body.
pub open spec fn keyload_wire(
    sp: SpView,
    nonce: Seq<u8>,
    es: Seq<KeyloadEntry>,
    key: Seq<u8>,
    sig: Seq<u8>,
) -> Seq<u8> {
    nonce + size_bytes(es.len() as int) + keyload_entries_wire(
        keyload_pre_sp(sp, nonce, es.len() as int),
        es,
        key,
    ) + sig
}

/// Sponge state after the keyload body: the keyed, signed, committed state
/// the branch's children chain from.
pub open spec fn keyload_final_sp(
    sp: SpView,
    nonce: Seq<u8>,
    es: Seq<KeyloadEntry>,
    key: Seq<u8>,
    sig: Seq<u8>,
) -> SpView {
    sp_commit(
        sp_absorb(
            sp_squeeze(
                sp_commit(
                    sp_absorb(
                        keyload_main_sp(keyload_pre_sp(sp, nonce, es.len() as int), es),
                        key,
                    ),
                ),
                64,
            ).0,
            sig,
        ),
    )
}

/// Whether `id` names `me` (when the publisher's exchange key works) or a
/// pre-shared key that `me` holds: the access-control test of a keyload.
pub open spec fn is_keyload_recipient(
    id: Identifier,
    me_id: Identifier,
    psks: Seq<(Vec<u8>, Vec<u8>)>,
    publisher_ok: bool,
) -> bool {
    (id_eq_spec(id, me_id) && publisher_ok) || (id_tag(id) == 1 && exists|k: int|
        0 <= k < psks.len() && psks[k].0@ == id_payload(id))
}

/// Body length under the *sizeof* context.
pub fn sizeof_keyload(ctx: &mut sizeof::Context, entries: &Vec<KeyloadEntry>) -> (r: Result<
    (),
    Error,
>)
    requires
        forall|j: int| 0 <= j < entries@.len() ==> entry_wf(#[trigger] entries@[j]),
    ensures
        r is Ok ==> final(ctx).size_spec() == old(ctx).size_spec() + keyload_body_len(
            entries@,
        ),
{
    ctx.absorb_bytes(16)?;
    ctx.absorb_size(entries.len() as u64)?;
    let mut i: usize = 0;
    let ghost mid = ctx.size_spec();
    while i < entries.len()
        invariant
            forall|j: int| 0 <= j < entries@.len() ==> entry_wf(#[trigger] entries@[j]),
            i <= entries@.len(),
            ctx.size_spec() == mid + entries_len(entries@.take(i as int)),
        decreases entries@.len() - i,
    {
        let e = &entries[i];
        e.id.sizeof(ctx)?;
        ctx.mask_bytes(KEY_SLOT_LEN)?;
        i = i + 1;
        proof {
            assert(entries@.take(i as int).drop_last() =~= entries@.take(i as int - 1));
        }
    }
    proof {
        assert(entries@.take(entries@.len() as int) =~= entries@);
    }
    ctx.absorb_key(32)?;
    ctx.commit()?;
    ctx.squeeze_emit(64)?;
    ctx.commit()
}

/// Emit a keyload body.
pub fn wrap_keyload(
    ctx: &mut wrap::Context,
    signer: &Identity,
    nonce: &Vec<u8>,
    entries: &Vec<KeyloadEntry>,
    session_key: &Vec<u8>,
) -> (r: Result<(), Error>)
    requires
        signer.wf(),
        wrap::ctx_wf(old(ctx)@),
        nonce@.len() == 16,
        session_key@.len() == 32,
        forall|j: int| 0 <= j < entries@.len() ==> entry_wf(#[trigger] entries@[j]),
    ensures
        r is Ok,
        wrap::ctx_wf(final(ctx)@),
        final(ctx)@.out.len() == old(ctx)@.out.len() + keyload_body_len(entries@),
        ({
            let hash = keyload_hash(old(ctx)@.sp, nonce@, entries@, session_key@);
            let sig = crate::id::ed25519_sig(signer.sk_spec(), hash);
            r is Ok ==> final(ctx)@.out == old(ctx)@.out + keyload_wire(
                old(ctx)@.sp,
                nonce@,
                entries@,
                session_key@,
                sig,
            ) && final(ctx)@.sp == keyload_final_sp(
                old(ctx)@.sp,
                nonce@,
                entries@,
                session_key@,
                sig,
            ) && sig.len() == 64 && crate::id::ed25519_accepts(
                id_payload(signer.identifier_spec()),
                hash,
                sig,
            )
        }),
{
    let ghost sp0 = ctx@.sp;
    let ghost out0 = ctx@.out;
    ctx.absorb_bytes(nonce.as_slice())?;
    ctx.absorb_size(entries.len() as u64)?;
    proof {
        crate::ddml::lemma_size_len_bound(entries@.len() as u64);
        crate::ddml::lemma_be_val_of_bytes(
            entries@.len() as int,
            size_len(entries@.len() as int),
        );
    }
    let ghost pre_sp = ctx@.sp;
    let ghost pre_out = ctx@.out;
    let mut i: usize = 0;
    let ghost mid = ctx@.out.len() as int;
    while i < entries.len()
        invariant
            signer.wf(),
            session_key@.len() == 32,
            wrap::ctx_wf(ctx@),
            forall|j: int| 0 <= j < entries@.len() ==> entry_wf(#[trigger] entries@[j]),
            i <= entries@.len(),
            ctx@.out.len() == mid + entries_len(entries@.take(i as int)),
            ctx@.sp == keyload_main_sp(pre_sp, entries@.take(i as int)),
            ctx@.out == pre_out + keyload_entries_wire(
                pre_sp,
                entries@.take(i as int),
                session_key@,
            ),
        decreases entries@.len() - i,
    {
        let e = &entries[i];
        let enc = e.id.encode();
        ctx.absorb_bytes(enc.as_slice())?;
        ctx.fork_mask_key(e.shared.as_slice(), session_key.as_slice())?;
        i = i + 1;
        proof {
            assert(entries@.take(i as int).drop_last() =~= entries@.take(i as int - 1));
            assert(entries@.take(i as int).last() == entries@[i as int - 1]);
            assert(ctx@.out =~= pre_out + keyload_entries_wire(
                pre_sp,
                entries@.take(i as int),
                session_key@,
            ));
        }
    }
    proof {
        assert(entries@.take(entries@.len() as int) =~= entries@);
    }
    ctx.absorb_key(session_key.as_slice())?;
    ctx.commit()?;
    let hash = ctx.squeeze_local(64);
    let sig = signer.sign(hash.as_slice());
    ctx.absorb_bytes(sig.as_slice())?;
    ctx.commit()?;
    proof {
        assert(ctx@.out =~= out0 + keyload_wire(sp0, nonce@, entries@, session_key@, sig@));
    }
    Ok(())
}

/// Parse a keyload body. Every reader recovers the recipient list; exactly
/// the listed recipients (as [`is_keyload_recipient`] says) can derive the
/// session key, and for them the signature is checked and the sponge ends
/// in the keyed state that the branch's children chain from.
pub fn unwrap_keyload(
    ctx: &mut unwrap::Context,
    me: &Identity,
    psks: &Vec<(PskId, Psk)>,
    publisher: &Identifier,
) -> (r: Result<(Vec<Identifier>, bool), Error>)
    requires
        unwrap::ctx_wf(old(ctx)@),
        me.wf(),
        id_wf(*publisher),
        forall|k: int| 0 <= k < psks@.len() ==> (#[trigger] psks@[k]).1@.len() == 32,
    ensures
        unwrap::ctx_wf(final(ctx)@),
        final(ctx)@.input == old(ctx)@.input,
        r matches Ok(v) ==> ({
            let publisher_ok = id_tag(*publisher) == 0 && ed25519_pk_ok(id_payload(*publisher));
            (forall|j: int| 0 <= j < v.0@.len() ==> id_wf(#[trigger] v.0@[j])) && (v.1
                <==> exists|j: int|
                0 <= j < v.0@.len() && is_keyload_recipient(
                    #[trigger] v.0@[j],
                    me.identifier_spec(),
                    psks@,
                    publisher_ok,
                ))
        }),
        r matches Ok(v) ==> old(ctx)@.pos + 16 <= old(ctx)@.input.len()
            && crate::ddml::size_parses(old(ctx)@.input, old(ctx)@.pos + 16) && v.0@.len()
            == crate::ddml::size_parsed_val(old(ctx)@.input, old(ctx)@.pos + 16) && final(ctx)@.pos > old(ctx)@.pos,
{
    let pub_pk = match publisher {
        Identifier::EdPubKey(pk) => pk,
        Identifier::PskId(_) => {
            return Err(Error::Malformed("keyload", "publisher"));
        },
    };
    let ghost publisher_ok = id_tag(*publisher) == 0 && ed25519_pk_ok(id_payload(*publisher));
    let _nonce = ctx.absorb_bytes(16)?;
    let n = ctx.absorb_size()?;
    if n > (ctx.remaining() / 33) as u64 {
        return Err(Error::Encoding("keyload", "recipient count"));
    }
    let count = n as usize;
    let my_id = me.identifier();
    let mut ids: Vec<Identifier> = Vec::new();
    let mut key: Vec<u8> = Vec::new();
    let mut found = false;
    let mut i: usize = 0;
    while i < count
        invariant
            unwrap::ctx_wf(ctx@),
            ctx@.input == old(ctx)@.input,
            me.wf(),
            id_wf(*publisher),
            publisher_ok == (id_tag(*publisher) == 0 && ed25519_pk_ok(id_payload(*publisher))),
            forall|k: int| 0 <= k < psks@.len() ==> (#[trigger] psks@[k]).1@.len() == 32,
            id_eq_spec(my_id, me.identifier_spec()),
            id_tag(my_id) == 0,
            i <= count,
            ids@.len() == i,
            old(ctx)@.pos + 16 <= old(ctx)@.input.len(),
            crate::ddml::size_parses(old(ctx)@.input, old(ctx)@.pos + 16),
            count == crate::ddml::size_parsed_val(old(ctx)@.input, old(ctx)@.pos + 16),
            ctx@.pos > old(ctx)@.pos,
            forall|j: int| 0 <= j < ids@.len() ==> id_wf(#[trigger] ids@[j]),
            found ==> key@.len() == 32,
            (found <==> exists|j: int|
                0 <= j < ids@.len() && is_keyload_recipient(
                    #[trigger] ids@[j],
                    me.identifier_spec(),
                    psks@,
                    publisher_ok,
                )),
        decreases count - i,
    {
        let ghost ids0 = ids@;
        let ghost found0 = found;
        let tag = ctx.absorb_u8()?;
        let id = if tag == 0 {
            Identifier::EdPubKey(ctx.absorb_bytes(32)?)
        } else if tag == 1 {
            Identifier::PskId(ctx.absorb_bytes(16)?)
        } else {
            return Err(Error::Encoding("keyload recipient", "oneof"));
        };
        let mut slot_shared: Option<Vec<u8>> = None;
        proof {
            assert(!(id_eq_spec(id, me.identifier_spec()) && id_tag(id) == 1));
        }
        if id.equals(&my_id) {
            match me.exchange(publisher) {
                Ok(shared) => {
                    slot_shared = Some(shared);
                },
                Err(_) => {
                    slot_shared = None;
                },
            }
        } else if tag == 1 {
            let mut k: usize = 0;
            while k < psks.len()
                invariant
                    forall|k2: int| 0 <= k2 < psks@.len() ==> (#[trigger] psks@[k2]).1@.len()
                        == 32,
                    k <= psks@.len(),
                    id_tag(id) == 1,
                    slot_shared matches Some(s) ==> s@.len() == 32 && exists|k2: int|
                        0 <= k2 < psks@.len() && (#[trigger] psks@[k2]).0@ == id_payload(id),
                    slot_shared is None ==> forall|k2: int|
                        0 <= k2 < k ==> (#[trigger] psks@[k2]).0@ != id_payload(id),
                decreases psks@.len() - k,
            {
                if slot_shared.is_none() && crate::address::bytes_eq(&psks[k].0, &id.to_bytes())
                {
                    slot_shared = Some(crate::id::vec_dup(&psks[k].1));
                }
                k = k + 1;
            }
        }
        let ghost slot0 = slot_shared;
        proof {
            if slot0 is None {
                assert(!is_keyload_recipient(
                    id,
                    me.identifier_spec(),
                    psks@,
                    publisher_ok,
                ));
            } else {
                assert(is_keyload_recipient(id, me.identifier_spec(), psks@, publisher_ok));
            }
        }
        match slot_shared {
            Some(shared) => {
                let got = ctx.fork_unmask_key(shared.as_slice(), KEY_SLOT_LEN)?;
                if !found {
                    key = got;
                    found = true;
                }
            },
            None => {
                let _ = ctx.skip(KEY_SLOT_LEN)?;
            },
        }
        ids.push(id);
        i = i + 1;
        proof {
            assert(ids@.len() == ids0.len() + 1);
            assert(ids@[ids@.len() - 1] == id);
            assert(forall|j: int| 0 <= j < ids0.len() ==> ids@[j] == ids0[j]);
            if found {
                if found0 {
                    let j = choose|j: int|
                        0 <= j < ids0.len() && is_keyload_recipient(
                            #[trigger] ids0[j],
                            me.identifier_spec(),
                            psks@,
                            publisher_ok,
                        );
                    assert(is_keyload_recipient(
                        ids@[j],
                        me.identifier_spec(),
                        psks@,
                        publisher_ok,
                    ));
                } else {
                    assert(is_keyload_recipient(
                        ids@[ids@.len() - 1],
                        me.identifier_spec(),
                        psks@,
                        publisher_ok,
                    ));
                }
            } else {
                assert(forall|j: int|
                    0 <= j < ids@.len() ==> !is_keyload_recipient(
                        #[trigger] ids@[j],
                        me.identifier_spec(),
                        psks@,
                        publisher_ok,
                    ));
            }
        }
    }
    if found {
        ctx.absorb_key(key.as_slice());
        ctx.commit()?;
        let hash = ctx.squeeze_local(64);
        let sig = ctx.absorb_bytes(64)?;
        if !crate::id::ed25519_verify(pub_pk, hash.as_slice(), &sig) {
            return Err(Error::Signature("verifying", "keyload"));
        }
        ctx.commit()?;
        let result = (ids, true);
        proof {
            let j0 = choose|j: int|
                0 <= j < result.0@.len() && is_keyload_recipient(
                    #[trigger] result.0@[j],
                    me.identifier_spec(),
                    psks@,
                    publisher_ok,
                );
            assert(exists|j: int|
                0 <= j < result.0@.len() && is_keyload_recipient(
                    #[trigger] result.0@[j],
                    me.identifier_spec(),
                    psks@,
                    publisher_ok,
                ));
        }
        Ok(result)
    } else {
        let _ = ctx.skip(64)?;
        let result = (ids, false);
        proof {
            assert(forall|j: int|
                0 <= j < result.0@.len() ==> !is_keyload_recipient(
                    #[trigger] result.0@[j],
                    me.identifier_spec(),
                    psks@,
                    publisher_ok,
                ));
        }
        Ok(result)
    }
}

} // verus!
