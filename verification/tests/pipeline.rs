//! End-to-end scenarios over the in-memory bucket transport.

use std::cell::RefCell;
use std::rc::Rc;

use streams::address::Address;
use streams::error::Error;
use streams::id::Identity;
use streams::message::{Message, MessageContent, TransportMessage};
use streams::messages::Messages;
use streams::transport::bucket;
use streams::transport::Transport;
use streams::user::User;

/// A bucket shared between users, as one transport medium.
#[derive(Clone)]
struct SharedBucket(Rc<RefCell<bucket::Client>>);

impl SharedBucket {
    fn new() -> SharedBucket {
        SharedBucket(Rc::new(RefCell::new(bucket::Client::new())))
    }
}

impl Transport for SharedBucket {
    fn send_message(
        &mut self,
        address: Address,
        msg: TransportMessage,
    ) -> Result<TransportMessage, Error> {
        self.0.borrow_mut().send_message(address, msg)
    }

    fn recv_messages(&mut self, address: Address) -> Result<Vec<TransportMessage>, Error> {
        self.0.borrow_mut().recv_messages(address)
    }
}

fn author_fixture(transport: SharedBucket) -> (User<SharedBucket>, Address) {
    let mut author = User::builder()
        .with_identity(Identity::from_seed(b"author"))
        .with_transport(transport)
        .build()
        .unwrap();
    author.create_stream(10).unwrap();
    let announcement = author.announce().unwrap();
    (author, announcement)
}

fn subscriber_fixture(
    seed: &[u8],
    author: &mut User<SharedBucket>,
    announcement_link: &Address,
    transport: SharedBucket,
) -> User<SharedBucket> {
    let mut subscriber = User::builder()
        .with_identity(Identity::from_seed(seed))
        .with_transport(transport)
        .build()
        .unwrap();
    subscriber.receive_message(announcement_link.clone()).unwrap();
    let subscription = subscriber.subscribe(announcement_link.relative()).unwrap();
    author.receive_message(subscription).unwrap();
    subscriber
}

#[test]
fn single_branch_yields_keyload_then_packets() {
    let transport = SharedBucket::new();
    let (mut author, ann) = author_fixture(transport.clone());
    let mut subscriber = subscriber_fixture(b"subscriber", &mut author, &ann, transport);

    let k = author.send_keyload_for_everyone(ann.relative()).unwrap();
    let p1 = author
        .send_signed_packet(k.relative(), &b"pub1".to_vec(), &b"msk1".to_vec())
        .unwrap();
    let p2 = author
        .send_signed_packet(p1.relative(), &b"pub2".to_vec(), &b"msk2".to_vec())
        .unwrap();

    let msgs = subscriber.fetch_next_messages().unwrap();
    assert_eq!(3, msgs.len());
    assert_eq!(msgs[0].address(), &k);
    assert_eq!(msgs[1].address(), &p1);
    assert_eq!(msgs[2].address(), &p2);
    assert!(matches!(msgs[0].content, MessageContent::Keyload { readable: true, .. }));
    assert_eq!(msgs[1].content.public_payload().unwrap().as_slice(), b"pub1");
    assert_eq!(msgs[1].content.masked_payload().unwrap().as_slice(), b"msk1");
    assert_eq!(msgs[2].content.public_payload().unwrap().as_slice(), b"pub2");
    assert_eq!(msgs[2].content.masked_payload().unwrap().as_slice(), b"msk2");
}

#[test]
fn late_subscriber_reads_in_topological_order() {
    let transport = SharedBucket::new();
    let (mut author, ann) = author_fixture(transport.clone());
    let mut subscriber = subscriber_fixture(b"subscriber", &mut author, &ann, transport.clone());

    let k = author.send_keyload_for_everyone(ann.relative()).unwrap();
    let p1 = author
        .send_signed_packet(k.relative(), &b"pub1".to_vec(), &b"msk1".to_vec())
        .unwrap();
    let p2 = author
        .send_signed_packet(p1.relative(), &b"pub2".to_vec(), &b"msk2".to_vec())
        .unwrap();

    // The subscriber connects only after the whole branch is on the
    // transport; the reader still yields parents before children.
    let msgs = subscriber.fetch_next_messages().unwrap();
    let addrs: Vec<&Address> = msgs.iter().map(|m| m.address()).collect();
    assert_eq!(addrs, vec![&k, &p1, &p2]);
    for m in &msgs {
        match &m.header.linked_msg_address {
            Some(linked) => {
                // Topological order: a packet's parent was yielded earlier
                // or is the stream root.
                let seen_before = msgs
                    .iter()
                    .take_while(|prev| prev.address() != m.address())
                    .any(|prev| prev.address().relative() == linked)
                    || linked == ann.relative();
                assert!(seen_before);
            }
            None => {}
        }
    }
}

#[test]
fn messages_awake_pending_messages_link_to_them_even_if_their_content_is_unreadable() {
    let p = b"payload".to_vec();
    let transport = SharedBucket::new();
    let (mut author, announcement_link) = author_fixture(transport.clone());
    let mut subscriber1 =
        subscriber_fixture(b"subscriber", &mut author, &announcement_link, transport.clone());

    let keyload_1 = author
        .send_keyload_for_everyone(announcement_link.relative())
        .unwrap();
    subscriber1.sync().unwrap();
    let packet_1 = subscriber1.send_signed_packet(keyload_1.relative(), &p, &p).unwrap();
    // This packet will never be readable by subscriber2. However, she will
    // still be able to progress through the next messages.
    let packet_2 = subscriber1.send_signed_packet(packet_1.relative(), &p, &p).unwrap();

    let mut subscriber2 =
        subscriber_fixture(b"subscriber2", &mut author, &announcement_link, transport.clone());

    author.sync().unwrap();

    // This keyload has to wait in the reader's queue until packet_2 is
    // processed (which, for subscriber2, never succeeds).
    let keyload_2 = author.send_keyload_for_everyone(packet_2.relative()).unwrap();

    subscriber1.sync().unwrap();
    let last_signed_packet = subscriber1
        .send_signed_packet(keyload_2.relative(), &p, &p)
        .unwrap();

    let msgs = subscriber2.fetch_next_messages().unwrap();
    assert_eq!(3, msgs.len()); // keyload_1, keyload_2 and last signed packet
    assert!(matches!(
        msgs.as_slice(),
        [
            Message { address: address_1, content: MessageContent::Keyload { .. }, .. },
            Message { address: address_2, content: MessageContent::Keyload { .. }, .. },
            Message { address: address_3, content: MessageContent::SignedPacket { .. }, .. },
        ]
        if address_1 == &keyload_1 && address_2 == &keyload_2 && address_3 == &last_signed_packet
    ));
}

#[test]
fn filter_branch_keeps_only_the_chosen_branch() {
    let transport = SharedBucket::new();
    let (mut author, ann) = author_fixture(transport.clone());
    let mut subscriber = subscriber_fixture(b"subscriber", &mut author, &ann, transport);

    let k_a = author.send_keyload_for_everyone(ann.relative()).unwrap();
    let tag_a = author
        .send_signed_packet(k_a.relative(), &Vec::new(), &b"branch 1".to_vec())
        .unwrap();
    let a1 = author
        .send_signed_packet(tag_a.relative(), &Vec::new(), &b"masked payload in branch 1".to_vec())
        .unwrap();
    let _a2 = author
        .send_signed_packet(a1.relative(), &Vec::new(), &b"another masked payload in branch 1".to_vec())
        .unwrap();

    let k_b = author.send_keyload_for_everyone(ann.relative()).unwrap();
    let tag_b = author
        .send_signed_packet(k_b.relative(), &Vec::new(), &b"branch 2".to_vec())
        .unwrap();
    let b1 = author
        .send_signed_packet(tag_b.relative(), &Vec::new(), &b"masked payload in branch 2".to_vec())
        .unwrap();
    let b2 = author
        .send_signed_packet(b1.relative(), &Vec::new(), &b"another masked payload in branch 2".to_vec())
        .unwrap();

    let reader = Messages::new();
    let mut branch = reader.filter_branch(|m: &Message| {
        m.content
            .masked_payload()
            .map(|payload| payload.as_slice() != b"branch 2")
            .unwrap_or(true)
    });
    let mut collected: Vec<Message> = Vec::new();
    while let Some(next) = branch.next(&mut subscriber) {
        collected.push(next.unwrap());
    }
    // The tag message opens the branch; the two packets follow it.
    assert_eq!(3, collected.len());
    assert_eq!(collected[0].address(), &tag_b);
    assert_eq!(collected[1].address(), &b1);
    assert_eq!(collected[2].address(), &b2);
    assert_eq!(
        collected[1].content.masked_payload().unwrap().as_slice(),
        b"masked payload in branch 2"
    );
    assert_eq!(
        collected[2].content.masked_payload().unwrap().as_slice(),
        b"another masked payload in branch 2"
    );
}

#[test]
fn reader_restarts_after_none() {
    let transport = SharedBucket::new();
    let (mut author, ann) = author_fixture(transport.clone());
    let mut subscriber = subscriber_fixture(b"subscriber", &mut author, &ann, transport);

    let k = author.send_keyload_for_everyone(ann.relative()).unwrap();
    let mut reader = Messages::new();
    let first = reader.next(&mut subscriber);
    assert!(matches!(first, Some(Ok(_))));
    assert!(reader.next(&mut subscriber).is_none());

    // New content after the reader ran dry: the next call finds it.
    let p = author
        .send_signed_packet(k.relative(), &b"pub".to_vec(), &b"msk".to_vec())
        .unwrap();
    let again = reader.next(&mut subscriber);
    match again {
        Some(Ok(m)) => assert_eq!(m.address(), &p),
        other => panic!("expected the new packet, got {:?}", other.is_some()),
    }
}

#[test]
fn tampered_blob_is_rejected_and_skipped() {
    let transport = SharedBucket::new();
    let (mut author, ann) = author_fixture(transport.clone());
    let mut subscriber = subscriber_fixture(b"subscriber", &mut author, &ann, transport.clone());
    let k = author.send_keyload_for_everyone(ann.relative()).unwrap();
    let p = author
        .send_signed_packet(k.relative(), &b"pub".to_vec(), &b"msk".to_vec())
        .unwrap();

    // Rebuild a second medium holding the same stream, with one bit of the
    // packet flipped.
    let mut source = transport.clone();
    let mut tampered_medium = SharedBucket::new();
    for addr in [&ann, &k] {
        let blob = source.recv_message((*addr).clone()).unwrap();
        tampered_medium.send_message((*addr).clone(), blob).unwrap();
    }
    let mut bytes = source.recv_message(p.clone()).unwrap().into_bytes();
    let mid = bytes.len() - 70;
    bytes[mid] ^= 1;
    tampered_medium
        .send_message(p.clone(), TransportMessage::new(bytes))
        .unwrap();

    let mut victim = User::builder()
        .with_identity(Identity::from_seed(b"subscriber"))
        .with_transport(tampered_medium)
        .build()
        .unwrap();
    victim.receive_message(ann.clone()).unwrap();
    victim.receive_message(k.clone()).unwrap();
    let err = victim.receive_message(p.clone()).unwrap_err();
    assert!(matches!(
        err,
        Error::Signature(..) | Error::Crypto(..) | Error::Encoding(..) | Error::Malformed(..)
    ));
    // The reader skips the corrupted blob and stays usable.
    let msgs = victim.fetch_next_messages().unwrap();
    for m in &msgs {
        assert_ne!(m.address(), &p);
    }
    let _ = subscriber.sync().unwrap();
}

#[test]
fn tagged_packet_guard_detects_flipped_tag() {
    let transport = SharedBucket::new();
    let (mut author, ann) = author_fixture(transport.clone());
    let t = author
        .send_tagged_packet(ann.relative(), &b"pub".to_vec(), &b"msk".to_vec())
        .unwrap();

    let mut source = transport.clone();
    let mut tampered_medium = SharedBucket::new();
    let blob = source.recv_message(ann.clone()).unwrap();
    tampered_medium.send_message(ann.clone(), blob).unwrap();
    let mut bytes = source.recv_message(t.clone()).unwrap().into_bytes();
    let last = bytes.len() - 1;
    bytes[last] ^= 0x80;
    tampered_medium
        .send_message(t.clone(), TransportMessage::new(bytes))
        .unwrap();

    let mut victim = User::builder()
        .with_identity(Identity::from_seed(b"observer"))
        .with_transport(tampered_medium)
        .build()
        .unwrap();
    victim.receive_message(ann.clone()).unwrap();
    let err = victim.receive_message(t.clone()).unwrap_err();
    assert!(matches!(err, Error::Crypto(..)));
}

#[test]
fn psk_recipient_reads_the_branch() {
    let transport = SharedBucket::new();
    let (mut author, ann) = author_fixture(transport.clone());
    let pskid = vec![7u8; 16];
    let psk = vec![9u8; 32];
    author.add_psk(pskid.clone(), psk.clone()).unwrap();

    let mut observer = User::builder()
        .with_identity(Identity::from_seed(b"observer"))
        .with_transport(transport.clone())
        .build()
        .unwrap();
    observer.add_psk(pskid, psk).unwrap();
    observer.receive_message(ann.clone()).unwrap();

    let k = author.send_keyload_for_everyone(ann.relative()).unwrap();
    let p = author
        .send_signed_packet(k.relative(), &b"pub".to_vec(), &b"secret".to_vec())
        .unwrap();

    let msgs = observer.fetch_next_messages().unwrap();
    assert_eq!(2, msgs.len());
    assert_eq!(msgs[0].address(), &k);
    assert!(matches!(msgs[0].content, MessageContent::Keyload { readable: true, .. }));
    assert_eq!(msgs[1].address(), &p);
    assert_eq!(msgs[1].content.masked_payload().unwrap().as_slice(), b"secret");
}

#[test]
fn received_cursors_increase_strictly() {
    let transport = SharedBucket::new();
    let (mut author, ann) = author_fixture(transport.clone());
    let mut subscriber = subscriber_fixture(b"subscriber", &mut author, &ann, transport);

    let author_id = author.identifier();
    let lane = |user: &User<SharedBucket>| -> u32 {
        user.cursors()
            .into_iter()
            .find(|(id, _, _)| *id == author_id)
            .map(|(_, _, c)| c)
            .unwrap()
    };
    // After the announcement the author's lane sits at 2.
    assert_eq!(2, lane(&subscriber));
    let k = author.send_keyload_for_everyone(ann.relative()).unwrap();
    subscriber.sync().unwrap();
    assert_eq!(3, lane(&subscriber));
    author
        .send_signed_packet(k.relative(), &b"a".to_vec(), &b"b".to_vec())
        .unwrap();
    subscriber.sync().unwrap();
    assert_eq!(4, lane(&subscriber));
}

#[test]
fn duplicate_receive_is_idempotent() {
    let transport = SharedBucket::new();
    let (mut author, ann) = author_fixture(transport.clone());
    let mut subscriber = subscriber_fixture(b"subscriber", &mut author, &ann, transport);
    let k = author.send_keyload_for_everyone(ann.relative()).unwrap();
    subscriber.sync().unwrap();

    // Receiving an already-handled message again succeeds and changes no
    // cursor.
    let before = subscriber.cursors();
    subscriber.receive_message(ann.clone()).unwrap();
    subscriber.receive_message(k.clone()).unwrap();
    let after = subscriber.cursors();
    assert_eq!(before.len(), after.len());
    for (b, a) in before.iter().zip(after.iter()) {
        assert_eq!(b.2, a.2);
    }
}

#[test]
fn orphan_is_retained_and_yielded_right_after_its_parent() {
    let transport = SharedBucket::new();
    let (mut author, ann) = author_fixture(transport.clone());
    let mut sub_a = subscriber_fixture(b"writer", &mut author, &ann, transport.clone());
    let mut sub_b = subscriber_fixture(b"reader", &mut author, &ann, transport.clone());

    let k = author.send_keyload_for_everyone(ann.relative()).unwrap();
    sub_a.sync().unwrap();
    let q = sub_a.send_signed_packet(k.relative(), &b"q".to_vec(), &b"q".to_vec()).unwrap();
    author.sync().unwrap();
    // The author's packet links to a message on another publisher's lane:
    // the reader fetches it before its parent and must retain it.
    let p = author.send_signed_packet(q.relative(), &b"p".to_vec(), &b"p".to_vec()).unwrap();

    let msgs = sub_b.fetch_next_messages().unwrap();
    let addrs: Vec<&Address> = msgs.iter().map(|m| m.address()).collect();
    assert_eq!(3, msgs.len());
    assert_eq!(addrs[0], &k);
    // The parent comes first, the retained child right after it.
    let qpos = addrs.iter().position(|a| *a == &q).unwrap();
    let ppos = addrs.iter().position(|a| *a == &p).unwrap();
    assert_eq!(ppos, qpos + 1);
}

#[test]
fn state_errors_guard_the_lifecycle() {
    let transport = SharedBucket::new();
    let mut user = User::builder()
        .with_identity(Identity::from_seed(b"solo"))
        .with_transport(transport)
        .build()
        .unwrap();
    // Announcing before the stream exists is a state error.
    assert!(matches!(user.announce(), Err(Error::State(..))));
    user.create_stream(1).unwrap();
    assert!(matches!(user.create_stream(2), Err(Error::State(..))));
}

#[test]
fn unknown_encoding_version_is_malformed() {
    let transport = SharedBucket::new();
    let (_author, ann) = author_fixture(transport.clone());
    let mut source = transport.clone();
    let mut bytes = source.recv_message(ann.clone()).unwrap().into_bytes();
    bytes[0] = 9;
    let mut medium = SharedBucket::new();
    medium.send_message(ann.clone(), TransportMessage::new(bytes)).unwrap();
    let mut victim = User::builder()
        .with_identity(Identity::from_seed(b"victim"))
        .with_transport(medium)
        .build()
        .unwrap();
    assert!(matches!(victim.receive_message(ann), Err(Error::Malformed(..))));
}

#[test]
fn ambiguous_and_missing_addresses_error() {
    let transport = SharedBucket::new();
    let (_author, ann) = author_fixture(transport.clone());
    let mut medium = transport.clone();
    let other = Address::new(
        streams::address::AppAddr::from_bytes(vec![1u8; 32]),
        streams::address::MsgId::from_bytes(vec![2u8; 12]),
    );
    assert!(matches!(
        medium.recv_message(other),
        Err(Error::MessageMissing(..))
    ));
    // A second blob under the announcement address makes it ambiguous.
    let blob = medium.recv_message(ann.clone()).unwrap();
    medium.send_message(ann.clone(), blob).unwrap();
    assert!(matches!(
        medium.recv_message(ann),
        Err(Error::AddressError(..))
    ));
}
