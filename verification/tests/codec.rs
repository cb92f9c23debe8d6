//! Unit tests for the wire codec, addressing and the message schemas.

use streams::address::{AppAddr, MsgId};
use streams::ddml::{be_decode, be_encode, size_encode, sizeof, unwrap, wrap};
use streams::error::Error;
use streams::id::{Identifier, Identity};
use streams::message::announcement;
use streams::message::hdf::{sizeof_hdf, unwrap_hdf, wrap_hdf, HDF};
use streams::message::packet;
use streams::message::{topic_hash, FRAME_SIGNED_PACKET};
use streams::sponge::Spongos;

#[test]
fn size_encoding_round_trips_exact_values() {
    assert_eq!(size_encode(0), vec![0u8]);
    assert_eq!(size_encode(5), vec![1u8, 5]);
    assert_eq!(size_encode(0x100), vec![2u8, 1, 0]);
    assert_eq!(size_encode(0xFFFF), vec![2u8, 0xFF, 0xFF]);
    assert_eq!(size_encode(u64::MAX).len(), 9);

    assert_eq!(be_encode(0x0102, 2), vec![1u8, 2]);
    assert_eq!(be_decode(&[1u8, 2]), 0x0102);
    for n in [0u64, 1, 255, 256, 65535, 1 << 24, u64::MAX] {
        let k = size_encode(n)[0] as usize;
        assert_eq!(be_decode(&be_encode(n, k)), n);
    }
}

#[test]
fn identifier_payload_round_trips_and_rejects_bad_lengths() {
    let identity = Identity::from_seed(b"codec");
    let id = identity.identifier();
    let bytes = id.to_bytes();
    assert_eq!(bytes.len(), 32);
    let back = Identifier::from_bytes(&bytes).unwrap();
    assert!(back.equals(&id));
    assert!(back.get_pk().is_some());

    let pskid = Identifier::PskId(vec![3u8; 16]);
    let back2 = Identifier::from_bytes(&pskid.to_bytes()).unwrap();
    assert!(back2.equals(&pskid));
    assert!(back2.get_pk().is_none());

    let err = Identifier::from_bytes(&vec![0u8; 5]).unwrap_err();
    assert!(matches!(err, Error::InvalidSize(..)));
}

#[test]
fn msgid_generation_is_pure_and_input_sensitive() {
    let identity = Identity::from_seed(b"gen");
    let id = identity.identifier();
    let app = AppAddr::gen(&id, 42);
    let topic = b"base".to_vec();
    let a = MsgId::gen(&app, &id, &topic, 7);
    let b = MsgId::gen(&app, &id, &topic, 7);
    assert_eq!(a, b);
    assert_eq!(a.as_bytes().len(), 12);
    let c = MsgId::gen(&app, &id, &topic, 8);
    assert_ne!(a, c);
    let other_topic = b"other".to_vec();
    let d = MsgId::gen(&app, &id, &other_topic, 7);
    assert_ne!(a, d);
    let app2 = AppAddr::gen(&id, 43);
    assert_ne!(app.as_bytes(), app2.as_bytes());
}

#[test]
fn sizeof_matches_wrap_length_for_each_schema() {
    let identity = Identity::from_seed(b"sizes");
    let public = b"a public payload".to_vec();
    let masked = b"a masked payload, somewhat longer".to_vec();

    // Signed packet body.
    let mut sz = sizeof::Context::new();
    packet::sizeof_signed_packet(&mut sz, &public, &masked).unwrap();
    let mut ctx = wrap::Context::new(Spongos::new());
    packet::wrap_signed_packet(&mut ctx, &identity, &public, &masked).unwrap();
    let (_, bytes) = ctx.into_parts();
    assert_eq!(sz.size(), bytes.len() as u64);

    // Tagged packet body.
    let mut sz2 = sizeof::Context::new();
    packet::sizeof_tagged_packet(&mut sz2, &public, &masked).unwrap();
    let mut ctx2 = wrap::Context::new(Spongos::new());
    packet::wrap_tagged_packet(&mut ctx2, &public, &masked).unwrap();
    let (_, bytes2) = ctx2.into_parts();
    assert_eq!(sz2.size(), bytes2.len() as u64);

    // Announcement body.
    let mut sz3 = sizeof::Context::new();
    let announce = announcement::Wrap::new(&identity);
    announcement::sizeof_announcement(&mut sz3, &announce).unwrap();
    let mut ctx3 = wrap::Context::new(Spongos::new());
    announcement::wrap_announcement(&mut ctx3, &announce).unwrap();
    let (_, bytes3) = ctx3.into_parts();
    assert_eq!(sz3.size(), bytes3.len() as u64);
    assert_eq!(sz3.size(), 97);

    // A full header.
    let hdf = HDF {
        frame_type: FRAME_SIGNED_PACKET,
        payload_length: 12345,
        seq_num: 3,
        topic_hash: topic_hash(&b"base".to_vec()),
        publisher: identity.identifier(),
        linked_msg_address: Some(MsgId::from_bytes(vec![1u8; 12])),
    };
    let mut sz4 = sizeof::Context::new();
    sizeof_hdf(&mut sz4, &hdf).unwrap();
    let mut ctx4 = wrap::Context::new(Spongos::new());
    wrap_hdf(&mut ctx4, &hdf).unwrap();
    let (_, bytes4) = ctx4.into_parts();
    assert_eq!(sz4.size(), bytes4.len() as u64);
}

#[test]
fn header_and_announcement_round_trip() {
    let identity = Identity::from_seed(b"roundtrip");
    let hdf = HDF {
        frame_type: streams::message::FRAME_ANNOUNCEMENT,
        payload_length: 97,
        seq_num: 1,
        topic_hash: topic_hash(&Vec::new()),
        publisher: identity.identifier(),
        linked_msg_address: None,
    };
    let mut ctx = wrap::Context::new(Spongos::new());
    wrap_hdf(&mut ctx, &hdf).unwrap();
    let announce = announcement::Wrap::new(&identity);
    announcement::wrap_announcement(&mut ctx, &announce).unwrap();
    let (_, bytes) = ctx.into_parts();

    let mut rctx = unwrap::Context::new(Spongos::new(), bytes);
    let parsed = unwrap_hdf(&mut rctx).unwrap();
    assert_eq!(parsed.frame_type, hdf.frame_type);
    assert_eq!(parsed.payload_length, hdf.payload_length);
    assert_eq!(parsed.seq_num, hdf.seq_num);
    assert_eq!(parsed.topic_hash, hdf.topic_hash);
    assert!(parsed.publisher.equals(&hdf.publisher));
    assert!(parsed.linked_msg_address.is_none());
    let unwrapped = announcement::unwrap_announcement(&mut rctx).unwrap();
    assert!(unwrapped.author_id().equals(&identity.identifier()));
    assert_eq!(rctx.remaining(), 0);
}

#[test]
fn signed_packet_round_trips_payloads() {
    let identity = Identity::from_seed(b"packets");
    let public = b"plain words".to_vec();
    let masked = b"sealed words".to_vec();
    let mut ctx = wrap::Context::new(Spongos::new());
    packet::wrap_signed_packet(&mut ctx, &identity, &public, &masked).unwrap();
    let (_, bytes) = ctx.into_parts();

    let pk = identity.identifier().to_bytes();
    let mut rctx = unwrap::Context::new(Spongos::new(), bytes);
    let (got_public, got_masked) = packet::unwrap_signed_packet(&mut rctx, &pk).unwrap();
    assert_eq!(got_public, public);
    assert_eq!(got_masked, masked);

    // The same bytes under a different sponge state do not decode: the
    // key stream differs and the signature check fails.
    let mut ctx2 = wrap::Context::new(Spongos::new());
    packet::wrap_signed_packet(&mut ctx2, &identity, &public, &masked).unwrap();
    let (_, bytes2) = ctx2.into_parts();
    let mut other = Spongos::new();
    other.absorb(b"different parent");
    other.commit();
    let mut rctx2 = unwrap::Context::new(other, bytes2);
    assert!(packet::unwrap_signed_packet(&mut rctx2, &pk).is_err());
}

#[test]
fn sponge_masking_round_trips_and_chains() {
    let mut a = Spongos::new();
    a.absorb(b"shared prefix");
    a.commit();
    let mut b = a.fork();
    let cipher = a.encrypt(b"attack at dawn");
    assert_ne!(cipher.as_slice(), b"attack at dawn");
    let plain = b.decrypt(&cipher);
    assert_eq!(plain.as_slice(), b"attack at dawn");
    // Both sides end in the same state: the next squeezes agree.
    assert_eq!(a.squeeze(32), b.squeeze(32));
}

#[test]
fn msg_index_is_deterministic() {
    let identity = Identity::from_seed(b"index");
    let id = identity.identifier();
    let app = AppAddr::gen(&id, 1);
    let rel = MsgId::gen(&app, &id, &b"base".to_vec(), 1);
    let addr = streams::address::Address::new(app, rel);
    let i1 = addr.to_msg_index();
    let i2 = addr.to_msg_index();
    assert_eq!(i1, i2);
    assert_eq!(i1.len(), 32);
}

#[test]
fn exhausted_input_yields_encoding_errors() {
    let mut ctx = unwrap::Context::new(Spongos::new(), Vec::new());
    assert!(matches!(ctx.absorb_u8(), Err(Error::Encoding(..))));
    let mut ctx2 = unwrap::Context::new(Spongos::new(), vec![9u8]);
    // A length-of-length above eight is rejected.
    assert!(matches!(ctx2.absorb_size(), Err(Error::Encoding(..))));
}
