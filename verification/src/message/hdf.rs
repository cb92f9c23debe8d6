//! The message header (HDF), carried in plaintext ahead of every body.

use vstd::prelude::*;
use crate::address::MsgId;
use crate::ddml::{be_bytes, size_bytes, size_len, size_parsed_val, sizeof, unwrap, wrap};
use crate::error::Error;
use crate::id::{
    id_parse_end, id_parse_payload, id_parse_sp, id_parses, id_payload, id_tag, id_wf,
    unwrap_new, wrap_id_bytes, wrap_id_sp, Identifier,
};
use crate::message::{ENCODING_VERSION, FRAME_ANNOUNCEMENT, FRAME_TAGGED_PACKET};
use crate::sponge::{sp_absorb, sp_commit, SpView};

verus! {

/// The header of every message: protocol version and payload framing are
/// fixed on the wire; the meaningful fields follow.
#[derive(Clone, Debug, PartialEq)]
pub struct HDF {
    /// The message kind.
    pub frame_type: u8,
    /// Length in bytes of the body that follows the header.
    pub payload_length: u64,
    /// The publisher's cursor for this message.
    pub seq_num: u32,
    /// 16-byte hash of the topic this message belongs to.
    pub topic_hash: Vec<u8>,
    /// Who wrapped this message.
    pub publisher: Identifier,
    /// The parent message; absent exactly for announcements.
    pub linked_msg_address: Option<MsgId>,
}

pub open spec fn hdf_wf(h: HDF) -> bool {
    &&& h.topic_hash@.len() == 16
    &&& id_wf(h.publisher)
    &&& FRAME_ANNOUNCEMENT <= h.frame_type <= FRAME_TAGGED_PACKET
    &&& (h.frame_type == FRAME_ANNOUNCEMENT <==> h.linked_msg_address is None)
    &&& (h.linked_msg_address matches Some(m) ==> m@.len() == 12)
}

/// The plaintext prefix of the header: version, payload framing, lengths,
/// frame type, sequence number and topic hash.
pub open spec fn hdf_pre(h: HDF) -> Seq<u8> {
    seq![ENCODING_VERSION, 0u8] + be_bytes(1, 4) + size_bytes(h.payload_length as int) + seq![
        h.frame_type,
    ] + size_bytes(h.seq_num as int) + h.topic_hash@
}

pub open spec fn hdf_linked_bytes(h: HDF) -> Seq<u8> {
    match h.linked_msg_address {
        Some(m) => m@,
        None => Seq::empty(),
    }
}

/// All wire bytes of a header wrapped on sponge state `sp`.
pub open spec fn hdf_wire(sp: SpView, h: HDF) -> Seq<u8> {
    hdf_pre(h) + wrap_id_bytes(sp_absorb(sp, hdf_pre(h)), h.publisher) + hdf_linked_bytes(h)
}

/// Sponge state after wrapping (or unwrapping) a header on state `sp`.
pub open spec fn hdf_sp(sp: SpView, h: HDF) -> SpView {
    sp_commit(
        sp_absorb(
            wrap_id_sp(sp_absorb(sp, hdf_pre(h)), h.publisher),
            hdf_linked_bytes(h),
        ),
    )
}

/// Wire length of a header.
pub open spec fn hdf_wire_len(h: HDF) -> int {
    2 + 4 + (size_len(h.payload_length as int) + 1) + 1 + (size_len(h.seq_num as int) + 1) + 16
        + (1 + id_payload(h.publisher).len()) + hdf_linked_bytes(h).len() as int
}

/// The wire of a well-formed header has exactly [`hdf_wire_len`] bytes.
pub proof fn lemma_hdf_wire_len(sp: SpView, h: HDF)
    requires
        hdf_wf(h),
    ensures
        hdf_wire(sp, h).len() == hdf_wire_len(h),
        hdf_pre(h).len() == hdf_wire_len(h) - 1 - id_payload(h.publisher).len()
            - hdf_linked_bytes(h).len(),
{
    crate::ddml::lemma_pow256_values();
    crate::ddml::lemma_be_val_of_bytes(1, 4);
    crate::ddml::lemma_size_len_bound(h.payload_length);
    crate::ddml::lemma_be_val_of_bytes(
        h.payload_length as int,
        size_len(h.payload_length as int),
    );
    crate::ddml::lemma_size_len_bound(h.seq_num as u64);
    crate::ddml::lemma_be_val_of_bytes(h.seq_num as int, size_len(h.seq_num as int));
    let sp1 = sp_absorb(sp, hdf_pre(h));
    match h.publisher {
        Identifier::EdPubKey(pk) => {},
        Identifier::PskId(p) => {
            crate::sponge::lemma_sp_encrypt_len(sp_absorb(sp1, seq![1u8]), p@);
        },
    }
}


/// A parsed header, at specification level: the same fields as [`HDF`],
/// over byte sequences.
pub struct HdfV {
    pub frame_type: u8,
    pub payload_length: u64,
    pub seq_num: u32,
    pub topic_hash: Seq<u8>,
    pub publisher_tag: u8,
    pub publisher_payload: Seq<u8>,
    pub linked: Option<Seq<u8>>,
}

/// Specification-level parser of a header on sponge state `sp`: the parsed
/// fields, the sponge state after the header, and the position after it.
/// `None` exactly where [`unwrap_hdf`] errors.
#[verifier::opaque]
pub open spec fn hdf_parse(sp: SpView, input: Seq<u8>, pos: int) -> Option<(HdfV, SpView, int)> {
    if pos + 6 <= input.len() && input[pos] == ENCODING_VERSION && input[pos + 1] == 0u8
        && crate::ddml::be_val(input.subrange(pos + 2, pos + 6)) == 1 && crate::ddml::size_parses(
        input,
        pos + 6,
    ) {
        let p1 = pos + 6;
        let pl = size_parsed_val(input, p1);
        let p2 = p1 + 1 + input[p1];
        if p2 + 1 <= input.len() && FRAME_ANNOUNCEMENT <= input[p2] && input[p2]
            <= FRAME_TAGGED_PACKET && crate::ddml::size_parses(input, p2 + 1) {
            let ft = input[p2];
            let p3 = p2 + 1;
            let sq = size_parsed_val(input, p3);
            let p4 = p3 + 1 + input[p3];
            if sq <= u32::MAX && p4 + 16 <= input.len() {
                let th = input.subrange(p4, p4 + 16);
                let p5 = p4 + 16;
                let sp1 = sp_absorb(sp, input.subrange(pos, p5));
                if id_parses(sp1, input, p5) {
                    let h = HdfV {
                        frame_type: ft,
                        payload_length: pl as u64,
                        seq_num: sq as u32,
                        topic_hash: th,
                        publisher_tag: input[p5],
                        publisher_payload: id_parse_payload(sp1, input, p5),
                        linked: None,
                    };
                    let sp2 = id_parse_sp(sp1, input, p5);
                    let p6 = id_parse_end(input, p5);
                    if ft == FRAME_ANNOUNCEMENT {
                        Some((h, sp_commit(sp2), p6))
                    } else if p6 + 12 <= input.len() {
                        Some(
                            (
                                HdfV { linked: Some(input.subrange(p6, p6 + 12)), ..h },
                                sp_commit(sp_absorb(sp2, input.subrange(p6, p6 + 12))),
                                p6 + 12,
                            ),
                        )
                    } else {
                        None
                    }
                } else {
                    None
                }
            } else {
                None
            }
        } else {
            None
        }
    } else {
        None
    }
}

impl HDF {
    /// A structural copy.
    pub fn dup(&self) -> (r: HDF)
        ensures
            r.frame_type == self.frame_type,
            r.payload_length == self.payload_length,
            r.seq_num == self.seq_num,
            r.topic_hash@ == self.topic_hash@,
            crate::id::id_eq_spec(r.publisher, self.publisher),
            crate::id::id_tag(r.publisher) == crate::id::id_tag(self.publisher),
            crate::id::id_payload(r.publisher) == crate::id::id_payload(self.publisher),
            r.linked_msg_address is Some <==> self.linked_msg_address is Some,
            (self.linked_msg_address matches Some(m) ==> (r.linked_msg_address matches Some(n)
                && n@ == m@)),
    {
        let linked = match &self.linked_msg_address {
            Some(m) => Some(MsgId::from_bytes(crate::id::vec_dup(m.as_bytes()))),
            None => None,
        };
        HDF {
            frame_type: self.frame_type,
            payload_length: self.payload_length,
            seq_num: self.seq_num,
            topic_hash: crate::id::vec_dup(&self.topic_hash),
            publisher: self.publisher.dup(),
            linked_msg_address: linked,
        }
    }
}

/// Exec mirror of [`hdf_pre`].
fn hdf_pre_exec(h: &HDF) -> (r: Vec<u8>)
    ensures
        r@ == hdf_pre(*h),
{
    let mut pre: Vec<u8> = Vec::new();
    pre.push(ENCODING_VERSION);
    pre.push(0);
    let fc = crate::ddml::be_encode(1, 4);
    crate::ddml::vec_extend(&mut pre, fc.as_slice());
    let pl = crate::ddml::size_encode(h.payload_length);
    crate::ddml::vec_extend(&mut pre, pl.as_slice());
    pre.push(h.frame_type);
    let sq = crate::ddml::size_encode(h.seq_num as u64);
    crate::ddml::vec_extend(&mut pre, sq.as_slice());
    crate::ddml::vec_extend(&mut pre, h.topic_hash.as_slice());
    proof {
        assert(pre@ =~= hdf_pre(*h));
    }
    pre
}

/// Header length under the *sizeof* context.
pub fn sizeof_hdf(ctx: &mut sizeof::Context, h: &HDF) -> (r: Result<(), Error>)
    requires
        hdf_wf(*h),
    ensures
        r is Ok ==> final(ctx).size_spec() == old(ctx).size_spec() + hdf_wire_len(*h),
{
    ctx.absorb_u8()?;
    ctx.absorb_u8()?;
    ctx.absorb_bytes(4)?;
    ctx.absorb_size(h.payload_length)?;
    ctx.absorb_u8()?;
    ctx.absorb_size(h.seq_num as u64)?;
    ctx.absorb_bytes(16)?;
    h.publisher.sizeof(ctx)?;
    match &h.linked_msg_address {
        Some(_) => ctx.absorb_bytes(12)?,
        None => (),
    };
    ctx.commit()
}

/// Emit a header.
pub fn wrap_hdf(ctx: &mut wrap::Context, h: &HDF) -> (r: Result<(), Error>)
    requires
        hdf_wf(*h),
        wrap::ctx_wf(old(ctx)@),
    ensures
        r is Ok,
        wrap::ctx_wf(final(ctx)@),
        final(ctx)@.sp == hdf_sp(old(ctx)@.sp, *h),
        final(ctx)@.out == old(ctx)@.out + hdf_wire(old(ctx)@.sp, *h),
        final(ctx)@.out.len() == old(ctx)@.out.len() + hdf_wire_len(*h),
{
    let ghost sp0 = ctx@.sp;
    let ghost out0 = ctx@.out;
    let pre = hdf_pre_exec(h);
    ctx.absorb_bytes(pre.as_slice())?;
    h.publisher.wrap(ctx)?;
    match &h.linked_msg_address {
        Some(m) => {
            ctx.absorb_bytes(m.as_bytes().as_slice())?;
        },
        None => (),
    };
    ctx.commit()?;
    proof {
        crate::sponge::lemma_sp_absorb_append(
            wrap_id_sp(sp_absorb(sp0, hdf_pre(*h)), h.publisher),
            Seq::<u8>::empty(),
            hdf_linked_bytes(*h),
        );
        assert(Seq::<u8>::empty() + hdf_linked_bytes(*h) =~= hdf_linked_bytes(*h));
        if h.linked_msg_address is None {
            assert(sp_absorb(
                wrap_id_sp(sp_absorb(sp0, hdf_pre(*h)), h.publisher),
                hdf_linked_bytes(*h),
            ) == wrap_id_sp(sp_absorb(sp0, hdf_pre(*h)), h.publisher));
        }
        assert(ctx@.out =~= out0 + hdf_wire(sp0, *h));
        lemma_hdf_wire_len(sp0, *h);
    }
    Ok(())
}

/// Parse a header. On success the consumed bytes are exactly what wrapping
/// the returned header on the same sponge state emits, and the sponge ends
/// in the same state as the writer's.
#[verifier::rlimit(100)]
pub fn unwrap_hdf(ctx: &mut unwrap::Context) -> (r: Result<HDF, Error>)
    requires
        unwrap::ctx_wf(old(ctx)@),
    ensures
        unwrap::ctx_wf(final(ctx)@),
        final(ctx)@.input == old(ctx)@.input,
        r is Ok <==> hdf_parse(old(ctx)@.sp, old(ctx)@.input, old(ctx)@.pos) is Some,
        r matches Ok(h) ==> hdf_wf(h) && old(ctx)@.pos + hdf_wire_len(h) <= old(ctx)@.input.len() && old(ctx)@.input.subrange(
            old(ctx)@.pos,
            old(ctx)@.pos + hdf_wire_len(h),
        ) == hdf_wire(old(ctx)@.sp, h) && final(ctx)@.sp == hdf_sp(old(ctx)@.sp, h) && final(ctx)@.pos == old(ctx)@.pos + hdf_wire_len(h),
        r matches Ok(h) ==> ({
            let parsed = hdf_parse(old(ctx)@.sp, old(ctx)@.input, old(ctx)@.pos)->Some_0;
            h.frame_type == parsed.0.frame_type && h.payload_length == parsed.0.payload_length
                && h.seq_num == parsed.0.seq_num && h.topic_hash@ == parsed.0.topic_hash
                && id_tag(h.publisher) == parsed.0.publisher_tag && id_payload(h.publisher)
                == parsed.0.publisher_payload && (match h.linked_msg_address {
                Some(m) => parsed.0.linked == Some(m@),
                None => parsed.0.linked is None,
            }) && final(ctx)@.sp == parsed.1 && final(ctx)@.pos == parsed.2
        }),
{
    proof {
        reveal(hdf_parse);
    }
    let ghost sp0 = ctx@.sp;
    let ghost pos0 = ctx@.pos;
    let ghost input = ctx@.input;
    let version = ctx.absorb_u8()?;
    if version != ENCODING_VERSION {
        return Err(Error::Malformed("header", "encoding version"));
    }
    let pft = ctx.absorb_u8()?;
    if pft != 0 {
        return Err(Error::Malformed("header", "payload frame type"));
    }
    let fc = ctx.absorb_bytes(4)?;
    let fc_val = crate::ddml::be_decode(fc.as_slice());
    if fc_val != 1 {
        return Err(Error::Malformed("header", "payload frame count"));
    }
    let ghost p1 = ctx@.pos;
    proof {
        assert(p1 == pos0 + 6);
        assert(fc@ =~= input.subrange(pos0 + 2, pos0 + 6));
    }
    let payload_length = ctx.absorb_size()?;
    proof {
        crate::ddml::lemma_size_len_bound(payload_length);
        crate::ddml::lemma_be_val_of_bytes(
            payload_length as int,
            size_len(payload_length as int),
        );
        assert(input.subrange(p1, p1 + size_len(payload_length as int) + 1)[0] == size_len(
            payload_length as int,
        ) as u8);
        assert(input[p1] == size_len(payload_length as int) as u8);
        assert(forall|j: int|
            0 <= j < size_len(payload_length as int) ==> input.subrange(
                p1,
                p1 + size_len(payload_length as int) + 1,
            )[j + 1] == #[trigger] input.subrange(
                p1 + 1,
                p1 + 1 + size_len(payload_length as int),
            )[j]);
        assert(input.subrange(p1 + 1, p1 + 1 + size_len(payload_length as int)) =~= be_bytes(
            payload_length as int,
            size_len(payload_length as int),
        ));
        assert(size_parsed_val(input, p1) == payload_length as int);
    }
    let frame_type = ctx.absorb_u8()?;
    let ghost p2 = ctx@.pos - 1;
    proof {
        assert(p2 == p1 + 1 + input[p1]);
        assert(frame_type == input[p2]);
    }
    if frame_type < FRAME_ANNOUNCEMENT || frame_type > FRAME_TAGGED_PACKET {
        return Err(Error::Malformed("header", "frame type"));
    }
    let ghost p3 = ctx@.pos;
    let seq64 = ctx.absorb_size()?;
    proof {
        crate::ddml::lemma_size_len_bound(seq64);
        crate::ddml::lemma_be_val_of_bytes(seq64 as int, size_len(seq64 as int));
        assert(input.subrange(p3, p3 + size_len(seq64 as int) + 1)[0] == size_len(
            seq64 as int,
        ) as u8);
        assert(input[p3] == size_len(seq64 as int) as u8);
        assert(forall|j: int|
            0 <= j < size_len(seq64 as int) ==> input.subrange(
                p3,
                p3 + size_len(seq64 as int) + 1,
            )[j + 1] == #[trigger] input.subrange(p3 + 1, p3 + 1 + size_len(seq64 as int))[j]);
        assert(input.subrange(p3 + 1, p3 + 1 + size_len(seq64 as int)) =~= be_bytes(
            seq64 as int,
            size_len(seq64 as int),
        ));
        assert(size_parsed_val(input, p3) == seq64 as int);
    }
    if seq64 > u32::MAX as u64 {
        return Err(Error::Malformed("header", "sequence number"));
    }
    let seq_num = seq64 as u32;
    let ghost p4 = ctx@.pos;
    let topic_hash = ctx.absorb_bytes(16)?;
    let ghost p5 = ctx@.pos;
    let ghost sp_pre = ctx@.sp;
    let publisher = unwrap_new(ctx)?;
    let ghost p6 = ctx@.pos;
    let linked_msg_address = if frame_type != FRAME_ANNOUNCEMENT {
        let m = ctx.absorb_bytes(12)?;
        Some(MsgId::from_bytes(m))
    } else {
        None
    };
    ctx.commit()?;
    let h = HDF { frame_type, payload_length, seq_num, topic_hash, publisher, linked_msg_address };
    proof {
        let pre = hdf_pre(h);
        crate::ddml::lemma_pow256_values();
        crate::ddml::lemma_be_val_of_bytes(1, 4);
        crate::ddml::lemma_be_val_injective(fc@, be_bytes(1, 4));
        assert(seq![ENCODING_VERSION, 0u8] =~= seq![ENCODING_VERSION] + seq![0u8]);
        assert(size_bytes(seq64 as int) == size_bytes(h.seq_num as int));
        crate::sponge::lemma_sp_absorb_append(sp0, seq![ENCODING_VERSION], seq![0u8]);
        crate::sponge::lemma_sp_absorb_append(sp0, seq![ENCODING_VERSION, 0u8], fc@);
        crate::sponge::lemma_sp_absorb_append(
            sp0,
            seq![ENCODING_VERSION, 0u8] + fc@,
            size_bytes(payload_length as int),
        );
        crate::sponge::lemma_sp_absorb_append(
            sp0,
            (seq![ENCODING_VERSION, 0u8] + fc@) + size_bytes(payload_length as int),
            seq![frame_type],
        );
        crate::sponge::lemma_sp_absorb_append(
            sp0,
            ((seq![ENCODING_VERSION, 0u8] + fc@) + size_bytes(payload_length as int)) + seq![
                frame_type,
            ],
            size_bytes(seq_num as int),
        );
        crate::sponge::lemma_sp_absorb_append(
            sp0,
            (((seq![ENCODING_VERSION, 0u8] + fc@) + size_bytes(payload_length as int)) + seq![
                frame_type,
            ]) + size_bytes(seq_num as int),
            topic_hash@,
        );
        assert((((((seq![ENCODING_VERSION, 0u8] + fc@) + size_bytes(payload_length as int))
            + seq![frame_type]) + size_bytes(seq_num as int)) + topic_hash@) =~= pre);
        assert(sp_pre == sp_absorb(sp0, pre));
        lemma_hdf_wire_len(sp0, h);
        assert(old(ctx)@.input.subrange(pos0, pos0 + pre.len()) =~= pre);
        assert(old(ctx)@.input.subrange(pos0, pos0 + hdf_wire_len(h)) =~= (pre
            + wrap_id_bytes(sp_pre, publisher)) + hdf_linked_bytes(h));
        assert((pre + wrap_id_bytes(sp_pre, publisher)) + hdf_linked_bytes(h) =~= hdf_wire(
            sp0,
            h,
        ));
        crate::sponge::lemma_sp_absorb_append(
            wrap_id_sp(sp_pre, publisher),
            Seq::<u8>::empty(),
            hdf_linked_bytes(h),
        );
        assert(Seq::<u8>::empty() + hdf_linked_bytes(h) =~= hdf_linked_bytes(h));
        if h.linked_msg_address is None {
            assert(sp_absorb(wrap_id_sp(sp_pre, publisher), hdf_linked_bytes(h))
                == wrap_id_sp(sp_pre, publisher));
        }
    }
    Ok(h)
}

} // verus!
