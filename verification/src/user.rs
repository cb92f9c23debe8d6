//! The per-user state machine: cursors, known subscribers, pre-shared keys
//! and sponge snapshots, together with sending and receiving of each
//! message kind.

use vstd::prelude::*;
use crate::address::{msgid_of, Address, AppAddr, MsgId};
use crate::ddml::{sizeof, unwrap, wrap};
use crate::error::Error;
use crate::id::{
    id_encoding, id_eq_spec, id_payload, id_tag, id_wf, vec_dup, Identifier, Identity, Psk,
    PskId,
};
use crate::message::announcement;
use crate::message::hdf::{hdf_parse, unwrap_hdf, wrap_hdf, HDF};
use crate::message::keyload::{self, keyload_hash, keyload_wire, KeyloadEntry};
use crate::message::packet::{self, signed_packet_parse, tagged_packet_parse};
use crate::message::subscription::{self, subscription_parse};
use crate::message::unsubscription;
use crate::message::{
    sigsec_parse, topic_hash, topic_hash_of, Message, MessageContent, Orphan, Topic,
    TransportMessage, FRAME_ANNOUNCEMENT, FRAME_KEYLOAD, FRAME_SIGNED_PACKET,
    FRAME_SUBSCRIPTION, FRAME_TAGGED_PACKET, FRAME_UNSUBSCRIPTION,
};
use crate::sponge::sp_new;
use crate::sponge::{sp_join, SpView, Spongos};
use crate::transport::Transport;

verus! {

/// The first sequence number a publisher emits in a topic.
pub const INITIAL_CURSOR: u32 = 1;

/// One cursor lane: the next sequence number `id` will emit in `topic`.
pub struct CursorEntry {
    pub id: Identifier,
    pub topic: Topic,
    pub cursor: u32,
}

/// The key of a cursor lane.
pub open spec fn cur_key(e: CursorEntry) -> (Seq<u8>, Seq<u8>) {
    (id_encoding(e.id), e.topic@)
}

/// First match wins: the cursor stored for `key` from index `i` on.
pub open spec fn cur_find(s: Seq<CursorEntry>, key: (Seq<u8>, Seq<u8>), i: int) -> Option<u32>
    decreases s.len() - i,
{
    if i < 0 || i >= s.len() {
        None
    } else if cur_key(s[i]) == key {
        Some(s[i].cursor)
    } else {
        cur_find(s, key, i + 1)
    }
}

/// First match wins: the snapshot stored for message identifier `k` from
/// index `i` on.
pub open spec fn store_find(s: Seq<(MsgId, Spongos)>, k: Seq<u8>, i: int) -> Option<SpView>
    decreases s.len() - i,
{
    if i < 0 || i >= s.len() {
        None
    } else if s[i].0@ == k {
        Some(s[i].1@)
    } else {
        store_find(s, k, i + 1)
    }
}

/// Whether the subscriber set holds an identifier with this encoding.
pub open spec fn subs_has(s: Seq<Identifier>, enc: Seq<u8>) -> bool {
    exists|j: int| 0 <= j < s.len() && id_encoding(#[trigger] s[j]) == enc
}

/// A blob that [`User::handle_message`] owes an `Announcement` for: its
/// header parses as a first-seen announcement of this user's topic, signed
/// by the Ed25519 author it names.
pub open spec fn announcement_blob_accepted(
    user: User<impl Transport>,
    address: (Seq<u8>, Seq<u8>),
    blob: Seq<u8>,
) -> bool {
    &&& hdf_parse(sp_new(), blob, 0) matches Some(parsed) && ({
        &&& parsed.0.frame_type == FRAME_ANNOUNCEMENT
        &&& parsed.0.topic_hash == topic_hash_of(user.base_topic_spec())
        &&& parsed.0.seq_num < u32::MAX
        &&& parsed.0.publisher_tag == 0
        &&& (sigsec_parse(parsed.1, blob, parsed.2) matches Some(sig_parsed) && sig_parsed.0
            == parsed.0.publisher_payload)
    })
    &&& (user.stream_spec() is None || user.stream_spec() == Some(address))
    &&& !user.has_snapshot(address.1)
}

/// The header conditions shared by every parent-linked blob that
/// [`User::handle_message`] owes success for: a first-seen message of this
/// user's topic whose declared parent snapshot is already stored.
pub open spec fn linked_blob_header_ok(
    user: User<impl Transport>,
    address: (Seq<u8>, Seq<u8>),
    blob: Seq<u8>,
    frame_type: u8,
) -> bool {
    &&& user.stream_spec() is Some
    &&& hdf_parse(sp_new(), blob, 0) matches Some(parsed) && ({
        &&& parsed.0.frame_type == frame_type
        &&& parsed.0.topic_hash == topic_hash_of(user.base_topic_spec())
        &&& parsed.0.seq_num < u32::MAX
        &&& (parsed.0.linked matches Some(l) && user.has_snapshot(l))
    })
    &&& !user.has_snapshot(address.1)
}

/// The sponge state a parent-linked body is read on: the header state
/// chained with the stored parent snapshot.
pub open spec fn linked_body_sp(user: User<impl Transport>, blob: Seq<u8>) -> SpView {
    let parsed = hdf_parse(sp_new(), blob, 0)->Some_0;
    sp_join(parsed.1, user.snapshot_spec(parsed.0.linked->Some_0)->Some_0)
}

/// The header-and-signature shape of a signed packet that a send handed
/// the transport: a well-formed header with this user as publisher, the
/// given link, the next cursor, and an accepted signature over the body
/// read on the linked snapshot.
pub open spec fn sent_signed_packet_wire(
    user: User<impl Transport>,
    link: Seq<u8>,
    public: Seq<u8>,
    masked: Seq<u8>,
    h: HDF,
    sig: Seq<u8>,
) -> bool {
    &&& crate::message::hdf::hdf_wf(h)
    &&& h.frame_type == FRAME_SIGNED_PACKET
    &&& h.payload_length == crate::message::packet::packet_core_len(public, masked) + 64
    &&& h.seq_num == (match user.cursor_spec(
        (id_encoding(user.id_spec()), user.base_topic_spec()),
    ) {
        Some(c0) => c0,
        None => INITIAL_CURSOR,
    })
    &&& h.topic_hash@ == topic_hash_of(user.base_topic_spec())
    &&& id_tag(h.publisher) == 0
    &&& id_payload(h.publisher) == id_payload(user.id_spec())
    &&& (h.linked_msg_address matches Some(m) && m@ == link)
    &&& sig.len() == 64
    &&& crate::id::ed25519_accepts(
        id_payload(user.id_spec()),
        crate::message::packet::signed_packet_hash(
            sp_join(crate::message::hdf::hdf_sp(sp_new(), h), user.snapshot_spec(link)->Some_0),
            public,
            masked,
        ),
        sig,
    )
}

/// The header-and-signature shape of the announcement a send handed the
/// transport: the genesis header at the initial cursor, signed by this
/// user on the fresh header state.
pub open spec fn sent_announcement_wire(user: User<impl Transport>, h: HDF, sig: Seq<u8>)
    -> bool {
    &&& crate::message::hdf::hdf_wf(h)
    &&& h.frame_type == FRAME_ANNOUNCEMENT
    &&& h.payload_length == 97
    &&& h.seq_num == INITIAL_CURSOR
    &&& h.topic_hash@ == topic_hash_of(user.base_topic_spec())
    &&& id_tag(h.publisher) == 0
    &&& id_payload(h.publisher) == id_payload(user.id_spec())
    &&& h.linked_msg_address is None
    &&& sig.len() == 64
    &&& crate::id::ed25519_accepts(
        id_payload(user.id_spec()),
        crate::message::sigsec_hash(
            crate::message::hdf::hdf_sp(sp_new(), h),
            user.id_spec(),
        ),
        sig,
    )
}

/// As [`sent_signed_packet_wire`], for a tagged packet: sealed by the
/// 32-byte squeeze instead of a signature.
pub open spec fn sent_tagged_packet_wire(
    user: User<impl Transport>,
    link: Seq<u8>,
    public: Seq<u8>,
    masked: Seq<u8>,
    h: HDF,
) -> bool {
    &&& crate::message::hdf::hdf_wf(h)
    &&& h.frame_type == FRAME_TAGGED_PACKET
    &&& h.payload_length == crate::message::packet::packet_core_len(public, masked) + 32
    &&& h.seq_num == (match user.cursor_spec(
        (id_encoding(user.id_spec()), user.base_topic_spec()),
    ) {
        Some(c0) => c0,
        None => INITIAL_CURSOR,
    })
    &&& h.topic_hash@ == topic_hash_of(user.base_topic_spec())
    &&& id_tag(h.publisher) == 0
    &&& id_payload(h.publisher) == id_payload(user.id_spec())
    &&& (h.linked_msg_address matches Some(m) && m@ == link)
}

/// As [`sent_signed_packet_wire`], for a subscription: a masked ephemeral
/// and a signature over the masked sections.
pub open spec fn sent_subscription_wire(
    user: User<impl Transport>,
    link: Seq<u8>,
    h: HDF,
    eph: Seq<u8>,
    sig: Seq<u8>,
) -> bool {
    &&& crate::message::hdf::hdf_wf(h)
    &&& h.frame_type == FRAME_SUBSCRIPTION
    &&& h.payload_length == 129
    &&& h.seq_num == (match user.cursor_spec(
        (id_encoding(user.id_spec()), user.base_topic_spec()),
    ) {
        Some(c0) => c0,
        None => INITIAL_CURSOR,
    })
    &&& h.topic_hash@ == topic_hash_of(user.base_topic_spec())
    &&& id_tag(h.publisher) == 0
    &&& id_payload(h.publisher) == id_payload(user.id_spec())
    &&& (h.linked_msg_address matches Some(m) && m@ == link)
    &&& eph.len() == 32
    &&& sig.len() == 64
    &&& crate::id::ed25519_accepts(
        id_payload(user.id_spec()),
        crate::message::subscription::subscription_hash(
            sp_join(crate::message::hdf::hdf_sp(sp_new(), h), user.snapshot_spec(link)->Some_0),
            user.id_spec(),
            eph,
        ),
        sig,
    )
}

/// As [`sent_signed_packet_wire`], for an unsubscription: the signed
/// identifier section.
pub open spec fn sent_unsubscription_wire(
    user: User<impl Transport>,
    link: Seq<u8>,
    h: HDF,
    sig: Seq<u8>,
) -> bool {
    &&& crate::message::hdf::hdf_wf(h)
    &&& h.frame_type == FRAME_UNSUBSCRIPTION
    &&& h.payload_length == 97
    &&& h.seq_num == (match user.cursor_spec(
        (id_encoding(user.id_spec()), user.base_topic_spec()),
    ) {
        Some(c0) => c0,
        None => INITIAL_CURSOR,
    })
    &&& h.topic_hash@ == topic_hash_of(user.base_topic_spec())
    &&& id_tag(h.publisher) == 0
    &&& id_payload(h.publisher) == id_payload(user.id_spec())
    &&& (h.linked_msg_address matches Some(m) && m@ == link)
    &&& sig.len() == 64
    &&& crate::id::ed25519_accepts(
        id_payload(user.id_spec()),
        crate::message::sigsec_hash(
            sp_join(crate::message::hdf::hdf_sp(sp_new(), h), user.snapshot_spec(link)->Some_0),
            user.id_spec(),
        ),
        sig,
    )
}

/// The shape of the keyload a send handed the transport: a well-formed
/// keyload header, one entry per requested recipient in order, and an
/// accepted signature over the keyed body read on the stream-root
/// snapshot.
pub open spec fn sent_keyload_wire(
    user: User<impl Transport>,
    link: Seq<u8>,
    recipients: Seq<Identifier>,
    h: HDF,
    nonce: Seq<u8>,
    es: Seq<KeyloadEntry>,
    key: Seq<u8>,
    sig: Seq<u8>,
) -> bool {
    &&& crate::message::hdf::hdf_wf(h)
    &&& h.frame_type == FRAME_KEYLOAD
    &&& h.payload_length == keyload::keyload_body_len(es)
    &&& h.seq_num == (match user.cursor_spec(
        (id_encoding(user.id_spec()), user.base_topic_spec()),
    ) {
        Some(c0) => c0,
        None => INITIAL_CURSOR,
    })
    &&& h.topic_hash@ == topic_hash_of(user.base_topic_spec())
    &&& id_tag(h.publisher) == 0
    &&& id_payload(h.publisher) == id_payload(user.id_spec())
    &&& (h.linked_msg_address matches Some(m) && m@ == link)
    &&& nonce.len() == 16
    &&& key.len() == 32
    &&& sig.len() == 64
    &&& es.len() == recipients.len()
    &&& (forall|j: int| 0 <= j < es.len() ==> id_eq_spec((#[trigger] es[j]).id, recipients[j]))
    &&& crate::id::ed25519_accepts(
        id_payload(user.id_spec()),
        keyload_hash(
            sp_join(
                crate::message::hdf::hdf_sp(sp_new(), h),
                user.snapshot_spec(user.stream_spec()->Some_0.1)->Some_0,
            ),
            nonce,
            es,
            key,
        ),
        sig,
    )
}

/// A blob that [`User::handle_message`] owes a `SignedPacket` for.
pub open spec fn signed_packet_blob_accepted(
    user: User<impl Transport>,
    address: (Seq<u8>, Seq<u8>),
    blob: Seq<u8>,
) -> bool {
    &&& linked_blob_header_ok(user, address, blob, FRAME_SIGNED_PACKET)
    &&& ({
        let parsed = hdf_parse(sp_new(), blob, 0)->Some_0;
        parsed.0.publisher_tag == 0 && signed_packet_parse(
            linked_body_sp(user, blob),
            blob,
            parsed.2,
            parsed.0.publisher_payload,
        ) is Some
    })
}

/// A blob that [`User::handle_message`] owes a `TaggedPacket` for.
pub open spec fn tagged_packet_blob_accepted(
    user: User<impl Transport>,
    address: (Seq<u8>, Seq<u8>),
    blob: Seq<u8>,
) -> bool {
    &&& linked_blob_header_ok(user, address, blob, FRAME_TAGGED_PACKET)
    &&& ({
        let parsed = hdf_parse(sp_new(), blob, 0)->Some_0;
        tagged_packet_parse(linked_body_sp(user, blob), blob, parsed.2) is Some
    })
}

/// A blob that [`User::handle_message`] owes a `Subscription` for.
pub open spec fn subscription_blob_accepted(
    user: User<impl Transport>,
    address: (Seq<u8>, Seq<u8>),
    blob: Seq<u8>,
) -> bool {
    &&& linked_blob_header_ok(user, address, blob, FRAME_SUBSCRIPTION)
    &&& ({
        let parsed = hdf_parse(sp_new(), blob, 0)->Some_0;
        parsed.0.publisher_tag == 0 && (subscription_parse(
            linked_body_sp(user, blob),
            blob,
            parsed.2,
        ) matches Some(sig_parsed) && sig_parsed.0 == parsed.0.publisher_payload)
    })
}

/// A per-user stream engine over a transport.
pub struct User<T> {
    identity: Identity,
    transport: T,
    base_topic: Topic,
    stream_address: Option<Address>,
    author_identifier: Option<Identifier>,
    cursors: Vec<CursorEntry>,
    psks: Vec<(PskId, Psk)>,
    spongos_store: Vec<(MsgId, Spongos)>,
    subscribers: Vec<Identifier>,
}

/// Builder for a [`User`]: identity and transport, then `build`.
pub struct UserBuilder<T> {
    /// The identity the built user will sign with.
    pub identity: Option<Identity>,
    /// The transport the built user will send and receive over.
    pub transport: Option<T>,
}

impl<T: Transport> UserBuilder<T> {
    pub fn new() -> (r: UserBuilder<T>)
        ensures
            r.identity is None,
            r.transport is None,
    {
        UserBuilder { identity: None, transport: None }
    }

    pub fn with_identity(self, identity: Identity) -> (r: UserBuilder<T>)
        ensures
            r.identity matches Some(i) && i == identity,
            r.transport == self.transport,
    {
        UserBuilder { identity: Some(identity), transport: self.transport }
    }

    pub fn with_transport(self, transport: T) -> (r: UserBuilder<T>)
        ensures
            r.transport is Some,
            r.identity == self.identity,
    {
        UserBuilder { identity: self.identity, transport: Some(transport) }
    }

    /// Build the user; errors when identity or transport is missing.
    pub fn build(self) -> (r: Result<User<T>, Error>)
        ensures
            r is Ok <==> self.identity is Some && self.transport is Some,
            r matches Ok(u) ==> (self.identity matches Some(i) && i.wf() ==> u.wf()),
    {
        let identity = match self.identity {
            Some(i) => i,
            None => {
                return Err(Error::State("user without identity"));
            },
        };
        let transport = match self.transport {
            Some(t) => t,
            None => {
                return Err(Error::State("user without transport"));
            },
        };
        Ok(User {
            identity,
            transport,
            base_topic: Vec::new(),
            stream_address: None,
            author_identifier: None,
            cursors: Vec::new(),
            psks: Vec::new(),
            spongos_store: Vec::new(),
            subscribers: Vec::new(),
        })
    }
}

impl<T: Transport> User<T> {
    /// Start building a user.
    pub fn builder() -> (r: UserBuilder<T>)
        ensures
            r.identity is None,
            r.transport is None,
    {
        UserBuilder::new()
    }

    /// The user's well-formedness: a valid identity, valid stream and
    /// author data once set, and 32-byte pre-shared keys.
    pub closed spec fn wf(&self) -> bool {
        &&& self.identity.wf()
        &&& (self.stream_address matches Some(a) ==> a.wf())
        &&& (self.author_identifier matches Some(i) ==> id_wf(i))
        &&& (self.stream_address is Some <==> self.author_identifier is Some)
        &&& forall|k: int|
            0 <= k < self.psks@.len() ==> (#[trigger] self.psks@[k]).0@.len() == 16 && (
            self.psks@[k]).1@.len() == 32
    }

    /// The cursor stored for `(publisher encoding, topic)`.
    pub closed spec fn cursor_spec(&self, key: (Seq<u8>, Seq<u8>)) -> Option<u32> {
        cur_find(self.cursors@, key, 0)
    }

    /// Whether a snapshot is stored for this relative address.
    pub closed spec fn has_snapshot(&self, k: Seq<u8>) -> bool {
        store_find(self.spongos_store@, k, 0) is Some
    }

    /// The stored snapshot for a relative address, if any.
    pub closed spec fn snapshot_spec(&self, k: Seq<u8>) -> Option<SpView> {
        store_find(self.spongos_store@, k, 0)
    }

    /// The stream address, as views.
    pub closed spec fn stream_spec(&self) -> Option<(Seq<u8>, Seq<u8>)> {
        match self.stream_address {
            Some(a) => Some(a@),
            None => None,
        }
    }

    /// This user's identifier.
    pub closed spec fn id_spec(&self) -> Identifier {
        self.identity.identifier_spec()
    }

    /// The base topic.
    pub closed spec fn base_topic_spec(&self) -> Seq<u8> {
        self.base_topic@
    }

    pub closed spec fn cursor_entries(&self) -> Seq<CursorEntry> {
        self.cursors@
    }

    pub closed spec fn subscribers_spec(&self) -> Seq<Identifier> {
        self.subscribers@
    }

    /// The registered pre-shared keys, as `(name bytes, key bytes)` pairs.
    pub closed spec fn psks_spec(&self) -> Seq<(Seq<u8>, Seq<u8>)> {
        Seq::new(self.psks@.len(), |i: int| (self.psks@[i].0@, self.psks@[i].1@))
    }

    /// What this user's transport holds, by message index.
    pub closed spec fn inbox_spec(&self) -> Map<Seq<u8>, Seq<Seq<u8>>> {
        self.transport.inbox()
    }

    /// This user's identifier.
    pub fn identifier(&self) -> (r: Identifier)
        requires
            self.wf(),
        ensures
            id_eq_spec(r, self.id_spec()),
            id_wf(r),
            id_tag(r) == 0,
    {
        self.identity.identifier()
    }

    /// The stream address, if the announcement has been made or received.
    pub fn stream_address(&self) -> (r: Option<&Address>)
        ensures
            r is Some <==> self.stream_spec() is Some,
            r matches Some(a) ==> Some(a@) == self.stream_spec(),
            self.wf() ==> (r matches Some(a) ==> a.wf()),
    {
        match &self.stream_address {
            Some(a) => Some(a),
            None => None,
        }
    }

    /// Register a pre-shared key.
    pub fn add_psk(&mut self, pskid: PskId, psk: Psk) -> (r: Result<(), Error>)
        requires
            old(self).wf(),
        ensures
            final(self).wf(),
            final(self).id_spec() == old(self).id_spec(),
            final(self).stream_spec() == old(self).stream_spec(),
            r is Ok <==> pskid@.len() == 16 && psk@.len() == 32,
            r is Ok ==> final(self).psks_spec() == old(self).psks_spec().push(
                (pskid@, psk@),
            ),
            r is Err ==> final(self).psks_spec() == old(self).psks_spec(),
    {
        if pskid.len() != 16 || psk.len() != 32 {
            return Err(Error::InvalidSize("pre-shared key", 32, psk.len() as u64));
        }
        let ghost before = self.psks_spec();
        self.psks.push((pskid, psk));
        proof {
            assert(self.psks_spec() =~= before.push((pskid@, psk@)));
        }
        Ok(())
    }

    /// All cursor lanes: `(publisher, topic, next sequence number)`.
    pub fn cursors(&self) -> (r: Vec<(Identifier, Topic, u32)>)
        ensures
            r@.len() == self.cursor_entries().len(),
            forall|j: int|
                0 <= j < r@.len() ==> id_encoding(#[trigger] r@[j].0) == id_encoding(
                    self.cursor_entries()[j].id,
                ) && r@[j].1@ == self.cursor_entries()[j].topic@ && r@[j].2
                    == self.cursor_entries()[j].cursor,
    {
        let mut r: Vec<(Identifier, Topic, u32)> = Vec::new();
        let mut i: usize = 0;
        while i < self.cursors.len()
            invariant
                i <= self.cursors@.len(),
                r@.len() == i,
                forall|j: int|
                    0 <= j < i ==> id_encoding(#[trigger] r@[j].0) == id_encoding(
                        self.cursors@[j].id,
                    ) && r@[j].1@ == self.cursors@[j].topic@ && r@[j].2
                        == self.cursors@[j].cursor,
            decreases self.cursors@.len() - i,
        {
            let e = &self.cursors[i];
            r.push((e.id.dup(), vec_dup(&e.topic), e.cursor));
            i = i + 1;
        }
        r
    }

    /// The cursor stored for a publisher and topic.
    fn cursor_get(&self, id: &Identifier, topic: &Vec<u8>) -> (r: Option<u32>)
        ensures
            r == self.cursor_spec((id_encoding(*id), topic@)),
    {
        let mut i: usize = 0;
        while i < self.cursors.len()
            invariant
                i <= self.cursors@.len(),
                cur_find(self.cursors@, (id_encoding(*id), topic@), 0) == cur_find(
                    self.cursors@,
                    (id_encoding(*id), topic@),
                    i as int,
                ),
            decreases self.cursors@.len() - i,
        {
            let e = &self.cursors[i];
            if e.id.equals(id) && crate::address::bytes_eq(&e.topic, topic) {
                proof {
                    assert(id_encoding(self.cursors@[i as int].id) =~= id_encoding(*id));
                }
                return Some(e.cursor);
            }
            proof {
                assert(cur_key(self.cursors@[i as int]) != (id_encoding(*id), topic@)) by {
                    if cur_key(self.cursors@[i as int]) == (id_encoding(*id), topic@) {
                        crate::id::lemma_id_encoding_injective(
                            self.cursors@[i as int].id,
                            *id,
                        );
                    }
                }
            }
            i = i + 1;
        }
        None
    }

    /// Raise the cursor of a lane to at least `val` (creating the lane if
    /// needed); all other lanes are untouched.
    fn cursor_set_max(&mut self, id: &Identifier, topic: &Vec<u8>, val: u32)
        requires
            old(self).wf(),
        ensures
            final(self).wf(),
            final(self).id_spec() == old(self).id_spec(),
            final(self).base_topic_spec() == old(self).base_topic_spec(),
            final(self).stream_spec() == old(self).stream_spec(),
            final(self).subscribers_spec() == old(self).subscribers_spec(),
            forall|k: Seq<u8>| old(self).has_snapshot(k) == final(self).has_snapshot(k),
            forall|k: Seq<u8>| old(self).snapshot_spec(k) == final(self).snapshot_spec(k),
            final(self).inbox_spec() == old(self).inbox_spec(),
            ({
                let key = (id_encoding(*id), topic@);
                final(self).cursor_spec(key) == (match old(self).cursor_spec(key) {
                    Some(c) => Some(if c >= val { c } else { val }),
                    None => Some(val),
                })
            }),
            forall|k2: (Seq<u8>, Seq<u8>)|
                k2 != (id_encoding(*id), topic@) ==> final(self).cursor_spec(k2) == old(self).cursor_spec(k2),
            forall|k2: (Seq<u8>, Seq<u8>)|
                (#[trigger] old(self).cursor_spec(k2) matches Some(c) ==> (
                final(self).cursor_spec(k2) matches Some(c2) && c2 >= c)),
    {
        let ghost key = (id_encoding(*id), topic@);
        let mut i: usize = 0;
        while i < self.cursors.len()
            invariant
                self == old(self),
                old(self).wf(),
                i <= self.cursors@.len(),
                cur_find(self.cursors@, key, 0) == cur_find(self.cursors@, key, i as int),
                key == (id_encoding(*id), topic@),
                forall|j: int| 0 <= j < i ==> cur_key(#[trigger] self.cursors@[j]) != key,
            decreases self.cursors@.len() - i,
        {
            let matches_here = self.cursors[i].id.equals(id) && crate::address::bytes_eq(
                &self.cursors[i].topic,
                topic,
            );
            proof {
                if matches_here {
                    assert(id_encoding(self.cursors@[i as int].id) =~= id_encoding(*id));
                } else {
                    assert(cur_key(self.cursors@[i as int]) != key) by {
                        if cur_key(self.cursors@[i as int]) == key {
                            crate::id::lemma_id_encoding_injective(
                                self.cursors@[i as int].id,
                                *id,
                            );
                        }
                    }
                }
            }
            if matches_here {
                let cur = self.cursors[i].cursor;
                let newval = if cur >= val {
                    cur
                } else {
                    val
                };
                let e = CursorEntry {
                    id: self.cursors[i].id.dup(),
                    topic: vec_dup(&self.cursors[i].topic),
                    cursor: newval,
                };
                proof {
                    assert(cur_key(e) =~~= cur_key(old(self).cursors@[i as int]));
                }
                self.cursors.set(i, e);
                proof {
                    lemma_cur_find_update(old(self).cursors@, self.cursors@, i as int);
                }
                return ;
            }
            i = i + 1;
        }
        let e = CursorEntry { id: id.dup(), topic: vec_dup(topic), cursor: val };
        proof {
            assert(cur_key(e) =~~= key);
        }
        self.cursors.push(e);
        proof {
            lemma_cur_find_push(old(self).cursors@, e);
        }
    }

    /// The stored snapshot for a relative address.
    fn store_get(&self, k: &MsgId) -> (r: Option<&Spongos>)
        ensures
            r is Some <==> self.has_snapshot(k@),
            r matches Some(s) ==> store_find(self.spongos_store@, k@, 0) == Some(s@),
    {
        let mut i: usize = 0;
        while i < self.spongos_store.len()
            invariant
                i <= self.spongos_store@.len(),
                store_find(self.spongos_store@, k@, 0) == store_find(
                    self.spongos_store@,
                    k@,
                    i as int,
                ),
            decreases self.spongos_store@.len() - i,
        {
            if self.spongos_store[i].0.equals(k) {
                return Some(&self.spongos_store[i].1);
            }
            i = i + 1;
        }
        None
    }

    /// Store a snapshot under a relative address, unless one is already
    /// present (first seen wins).
    fn store_insert(&mut self, k: MsgId, s: Spongos)
        requires
            old(self).wf(),
        ensures
            final(self).wf(),
            final(self).id_spec() == old(self).id_spec(),
            final(self).base_topic_spec() == old(self).base_topic_spec(),
            final(self).stream_spec() == old(self).stream_spec(),
            final(self).subscribers_spec() == old(self).subscribers_spec(),
            final(self).cursor_entries() == old(self).cursor_entries(),
            final(self).inbox_spec() == old(self).inbox_spec(),
            final(self).has_snapshot(k@),
            forall|k2: Seq<u8>| old(self).has_snapshot(k2) ==> final(self).has_snapshot(k2),
            forall|k2: Seq<u8>|
                k2 != k@ ==> final(self).has_snapshot(k2) == old(self).has_snapshot(k2),
            !old(self).has_snapshot(k@) ==> store_find(final(self).spongos_store@, k@, 0)
                == Some(s@),
            old(self).has_snapshot(k@) ==> final(self).spongos_store@ == old(self).spongos_store@,
    {
        if self.store_get(&k).is_some() {
            return ;
        }
        self.spongos_store.push((k, s));
        proof {
            lemma_store_find_push(old(self).spongos_store@, (k, s));
        }
    }
}


impl<T: Transport> User<T> {
    /// Create the stream: derive the application address from this user's
    /// identifier and a one-time nonce, and fix the announcement address.
    pub fn create_stream(&mut self, nonce: u64) -> (r: Result<Address, Error>)
        requires
            old(self).wf(),
        ensures
            final(self).wf(),
            final(self).id_spec() == old(self).id_spec(),
            old(self).stream_spec() is Some ==> r is Err,
            old(self).stream_spec() is None ==> r is Ok,
            r matches Ok(a) ==> final(self).stream_spec() == Some(a@) && a@.0 == crate::address::appaddr_of(
                old(self).id_spec(),
                nonce,
            ) && a@.1 == msgid_of(
                a@.0,
                old(self).id_spec(),
                old(self).base_topic_spec(),
                INITIAL_CURSOR,
            ) && a.wf(),
            r is Err ==> final(self).stream_spec() == old(self).stream_spec(),
    {
        if self.stream_address.is_some() {
            return Err(Error::State("stream already created"));
        }
        let me = self.identity.identifier();
        proof {
            assert(id_encoding(me) =~= id_encoding(old(self).id_spec()));
        }
        let app = AppAddr::gen(&me, nonce);
        let rel = MsgId::gen(&app, &me, &self.base_topic, INITIAL_CURSOR);
        let addr = Address::new(app, rel);
        self.stream_address = Some(addr.dup());
        self.author_identifier = Some(me);
        Ok(addr)
    }

    /// Wrap and send the announcement at the stream address.
    pub fn announce(&mut self) -> (r: Result<Address, Error>)
        requires
            old(self).wf(),
        ensures
            final(self).wf(),
            final(self).id_spec() == old(self).id_spec(),
            final(self).stream_spec() == old(self).stream_spec(),
            old(self).stream_spec() is None ==> r is Err,
            (old(self).stream_spec() matches Some(st) && old(self).has_snapshot(st.1)) ==> r
                is Err,
            r matches Ok(a) ==> old(self).stream_spec() == Some(a@) && final(self).has_snapshot(
                a@.1,
            ),
            forall|k: Seq<u8>| old(self).has_snapshot(k) ==> final(self).has_snapshot(k),
            r matches Ok(a) ==> ({
                let idx = crate::address::msg_index_of(a@.0, a@.1);
                let before = if old(self).inbox_spec().contains_key(idx) {
                    old(self).inbox_spec()[idx]
                } else {
                    Seq::empty()
                };
                exists|h: HDF, sig: Seq<u8>|
                    sent_announcement_wire(*old(self), h, sig) && final(self).inbox_spec()
                        == old(self).inbox_spec().insert(
                        idx,
                        before.push(
                            crate::message::hdf::hdf_wire(sp_new(), h)
                                + crate::message::sigsec_wire(
                                crate::message::hdf::hdf_sp(sp_new(), h),
                                old(self).id_spec(),
                                sig,
                            ),
                        ),
                    )
            }),
    {
        let stream = match &self.stream_address {
            Some(a) => a.dup(),
            None => {
                return Err(Error::State("announce before create_stream"));
            },
        };
        if self.store_get(stream.relative()).is_some() {
            return Err(Error::State("already announced"));
        }
        let th = topic_hash(&self.base_topic);
        let hdf = HDF {
            frame_type: FRAME_ANNOUNCEMENT,
            payload_length: 97,
            seq_num: INITIAL_CURSOR,
            topic_hash: th,
            publisher: self.identity.identifier(),
            linked_msg_address: None,
        };
        let mut ctx = wrap::Context::new(Spongos::new());
        wrap_hdf(&mut ctx, &hdf)?;
        let ghost gh = hdf;
        let ghost body_sp = ctx@.sp;
        let announce_wrap = announcement::Wrap::new(&self.identity);
        announcement::wrap_announcement(&mut ctx, &announce_wrap)?;
        let (sp, bytes) = ctx.into_parts();
        let ghost outv = bytes@;
        match self.transport.send_message(stream.dup(), TransportMessage::new(bytes)) {
            Ok(_) => (),
            Err(e) => {
                return Err(e);
            },
        }
        self.store_insert(MsgId::from_bytes(vec_dup(stream.relative().as_bytes())), sp);
        let topic = vec_dup(&self.base_topic);
        let me = self.identity.identifier();
        self.cursor_set_max(&me, &topic, 2);
        proof {
            let sigv = crate::id::ed25519_sig(
                old(self).identity.sk_spec(),
                crate::message::sigsec_hash(body_sp, old(self).id_spec()),
            );
            assert(sent_announcement_wire(*old(self), gh, sigv));
            assert(outv =~= crate::message::hdf::hdf_wire(sp_new(), gh)
                + crate::message::sigsec_wire(body_sp, old(self).id_spec(), sigv));
        }
        Ok(stream)
    }

    /// The shared tail of every linked send: wrap the header, chain the
    /// parent snapshot, and hand back the context ready for the body.
    fn start_linked_wrap(
        &self,
        frame_type: u8,
        payload_length: u64,
        seq: u32,
        link: &MsgId,
        parent: &Spongos,
    ) -> (r: Result<(wrap::Context, Address, Ghost<HDF>), Error>)
        requires
            self.wf(),
            link@.len() == 12,
            FRAME_ANNOUNCEMENT < frame_type <= FRAME_TAGGED_PACKET,
        ensures
            self.stream_spec() is None ==> r is Err,
            r matches Ok(v) ==> self.stream_spec() is Some && wrap::ctx_wf(v.0@) && v.1.wf()
                && Some(v.1@.0) == (match self.stream_spec() {
                Some(st) => Some(st.0),
                None => None,
            }) && v.1@.1 == msgid_of(v.1@.0, self.id_spec(), self.base_topic_spec(), seq),
            r matches Ok(v) ==> ({
                let h = v.2@;
                crate::message::hdf::hdf_wf(h) && h.frame_type == frame_type
                    && h.payload_length == payload_length && h.seq_num == seq && h.topic_hash@
                    == topic_hash_of(self.base_topic_spec()) && id_tag(h.publisher) == 0
                    && id_payload(h.publisher) == id_payload(self.id_spec()) && (
                h.linked_msg_address matches Some(m) && m@ == link@) && v.0@.out
                    == crate::message::hdf::hdf_wire(sp_new(), h) && v.0@.sp == sp_join(
                    crate::message::hdf::hdf_sp(sp_new(), h),
                    parent@,
                )
            }),
    {
        let stream = match &self.stream_address {
            Some(a) => a.dup(),
            None => {
                return Err(Error::State("send before announcement"));
            },
        };
        let me = self.identity.identifier();
        proof {
            assert(id_encoding(me) =~= id_encoding(self.id_spec()));
        }
        let rel = MsgId::gen(stream.base(), &me, &self.base_topic, seq);
        let addr = Address::new(
            AppAddr::from_bytes(vec_dup(stream.base().as_bytes())),
            rel,
        );
        let th = topic_hash(&self.base_topic);
        let hdf = HDF {
            frame_type,
            payload_length,
            seq_num: seq,
            topic_hash: th,
            publisher: me,
            linked_msg_address: Some(MsgId::from_bytes(vec_dup(link.as_bytes()))),
        };
        let mut ctx = wrap::Context::new(Spongos::new());
        wrap_hdf(&mut ctx, &hdf)?;
        ctx.join(parent)?;
        let ghost gh = hdf;
        proof {
            assert(ctx@.out =~= crate::message::hdf::hdf_wire(sp_new(), gh));
        }
        Ok((ctx, addr, Ghost(gh)))
    }

    /// Finish a send: transport the blob, store the snapshot, bump the
    /// sender's cursor.
    fn finish_send(&mut self, addr: Address, ctx: wrap::Context, seq: u32) -> (r: Result<
        Address,
        Error,
    >)
        requires
            old(self).wf(),
            addr.wf(),
            seq < u32::MAX,
        ensures
            final(self).wf(),
            final(self).id_spec() == old(self).id_spec(),
            final(self).base_topic_spec() == old(self).base_topic_spec(),
            final(self).stream_spec() == old(self).stream_spec(),
            forall|k: Seq<u8>| old(self).has_snapshot(k) ==> final(self).has_snapshot(k),
            forall|k2: (Seq<u8>, Seq<u8>)|
                (#[trigger] old(self).cursor_spec(k2) matches Some(c) ==> (
                final(self).cursor_spec(k2) matches Some(c2) && c2 >= c)),
            r matches Ok(a) ==> a@ == addr@ && final(self).has_snapshot(addr@.1) && (
            final(self).cursor_spec((id_encoding(old(self).id_spec()), old(self).base_topic_spec()))
                matches Some(c) && c >= seq + 1),
            r is Ok ==> ({
                let idx = crate::address::msg_index_of(addr@.0, addr@.1);
                let before = if old(self).inbox_spec().contains_key(idx) {
                    old(self).inbox_spec()[idx]
                } else {
                    Seq::empty()
                };
                final(self).inbox_spec() == old(self).inbox_spec().insert(
                    idx,
                    before.push(ctx@.out),
                )
            }),
            r is Err ==> final(self).inbox_spec() == old(self).inbox_spec(),
            r is Err ==> *final(self) == *old(self) || final(self).cursor_entries() == old(self).cursor_entries(),
    {
        let (sp, bytes) = ctx.into_parts();
        match self.transport.send_message(addr.dup(), TransportMessage::new(bytes)) {
            Ok(_) => (),
            Err(e) => {
                return Err(e);
            },
        }
        self.store_insert(MsgId::from_bytes(vec_dup(addr.relative().as_bytes())), sp);
        let topic = vec_dup(&self.base_topic);
        let me = self.identity.identifier();
        proof {
            assert(id_encoding(me) =~= id_encoding(old(self).id_spec()));
        }
        self.cursor_set_max(&me, &topic, seq + 1);
        Ok(addr)
    }

    /// The sequence number this user's next message in the base topic uses.
    fn own_next_seq(&self) -> (r: Result<u32, Error>)
        requires
            self.wf(),
        ensures
            r matches Ok(c) ==> c < u32::MAX && Some(c) == (match self.cursor_spec(
                (id_encoding(self.id_spec()), self.base_topic_spec()),
            ) {
                Some(c0) => Some(c0),
                None => Some(INITIAL_CURSOR),
            }),
            r is Err <==> self.cursor_spec(
                (id_encoding(self.id_spec()), self.base_topic_spec()),
            ) == Some(u32::MAX),
    {
        let me = self.identity.identifier();
        proof {
            assert(id_encoding(me) =~= id_encoding(self.id_spec()));
        }
        let seq = match self.cursor_get(&me, &self.base_topic) {
            Some(c) => c,
            None => INITIAL_CURSOR,
        };
        if seq == u32::MAX {
            return Err(Error::State("cursor exhausted"));
        }
        Ok(seq)
    }

    /// Subscribe to the stream, linked to the announcement.
    pub fn subscribe(&mut self, link: &MsgId) -> (r: Result<Address, Error>)
        requires
            old(self).wf(),
            link@.len() == 12,
        ensures
            final(self).wf(),
            final(self).id_spec() == old(self).id_spec(),
            final(self).stream_spec() == old(self).stream_spec(),
            forall|k: Seq<u8>| old(self).has_snapshot(k) ==> final(self).has_snapshot(k),
            old(self).stream_spec() is None ==> r is Err,
            !old(self).has_snapshot(link@) ==> r is Err,
            old(self).cursor_spec((id_encoding(old(self).id_spec()), old(self).base_topic_spec()))
                == Some(u32::MAX) ==> r is Err,
            r matches Ok(a) ==> final(self).has_snapshot(a@.1) && (match old(self).stream_spec() {
                Some(st) => a@.0 == st.0,
                None => false,
            }),
            r matches Ok(a) ==> ({
                let idx = crate::address::msg_index_of(a@.0, a@.1);
                let before = if old(self).inbox_spec().contains_key(idx) {
                    old(self).inbox_spec()[idx]
                } else {
                    Seq::empty()
                };
                exists|h: HDF, eph: Seq<u8>, sig: Seq<u8>|
                    sent_subscription_wire(*old(self), link@, h, eph, sig) && final(self).inbox_spec() == old(self).inbox_spec().insert(
                        idx,
                        before.push(
                            crate::message::hdf::hdf_wire(sp_new(), h)
                                + crate::message::subscription::subscription_wire(
                                sp_join(
                                    crate::message::hdf::hdf_sp(sp_new(), h),
                                    old(self).snapshot_spec(link@)->Some_0,
                                ),
                                old(self).id_spec(),
                                eph,
                                sig,
                            ),
                        ),
                    )
            }),
    {
        let parent = match self.store_get(link) {
            Some(s) => s.fork(),
            None => {
                return Err(Error::State("unknown parent message"));
            },
        };
        let seq = self.own_next_seq()?;
        let ephemeral = crate::id::random_bytes(32)?;
        let mut sz = sizeof::Context::new();
        subscription::sizeof_subscription(&mut sz)?;
        let (mut ctx, addr, gh) = self.start_linked_wrap(
            FRAME_SUBSCRIPTION,
            sz.size(),
            seq,
            link,
            &parent,
        )?;
        let ghost body_sp = ctx@.sp;
        subscription::wrap_subscription(&mut ctx, &self.identity, &ephemeral)?;
        let ghost ephv = ephemeral@;
        let r = self.finish_send(addr, ctx, seq);
        proof {
            if r is Ok {
                let h = gh@;
                let sigv = crate::id::ed25519_sig(
                    old(self).identity.sk_spec(),
                    crate::message::subscription::subscription_hash(
                        body_sp,
                        old(self).id_spec(),
                        ephv,
                    ),
                );
                assert(sent_subscription_wire(*old(self), link@, h, ephv, sigv));
            }
        }
        r
    }

    /// Leave the stream, linked to this user's last message.
    pub fn unsubscribe(&mut self, link: &MsgId) -> (r: Result<Address, Error>)
        requires
            old(self).wf(),
            link@.len() == 12,
        ensures
            final(self).wf(),
            final(self).id_spec() == old(self).id_spec(),
            final(self).stream_spec() == old(self).stream_spec(),
            forall|k: Seq<u8>| old(self).has_snapshot(k) ==> final(self).has_snapshot(k),
            old(self).stream_spec() is None ==> r is Err,
            !old(self).has_snapshot(link@) ==> r is Err,
            old(self).cursor_spec((id_encoding(old(self).id_spec()), old(self).base_topic_spec()))
                == Some(u32::MAX) ==> r is Err,
            r matches Ok(a) ==> final(self).has_snapshot(a@.1),
            r matches Ok(a) ==> ({
                let idx = crate::address::msg_index_of(a@.0, a@.1);
                let before = if old(self).inbox_spec().contains_key(idx) {
                    old(self).inbox_spec()[idx]
                } else {
                    Seq::empty()
                };
                exists|h: HDF, sig: Seq<u8>|
                    sent_unsubscription_wire(*old(self), link@, h, sig) && final(self).inbox_spec() == old(self).inbox_spec().insert(
                        idx,
                        before.push(
                            crate::message::hdf::hdf_wire(sp_new(), h)
                                + crate::message::sigsec_wire(
                                sp_join(
                                    crate::message::hdf::hdf_sp(sp_new(), h),
                                    old(self).snapshot_spec(link@)->Some_0,
                                ),
                                old(self).id_spec(),
                                sig,
                            ),
                        ),
                    )
            }),
    {
        let parent = match self.store_get(link) {
            Some(s) => s.fork(),
            None => {
                return Err(Error::State("unknown parent message"));
            },
        };
        let seq = self.own_next_seq()?;
        let mut sz = sizeof::Context::new();
        unsubscription::sizeof_unsubscription(&mut sz)?;
        let (mut ctx, addr, gh) = self.start_linked_wrap(
            FRAME_UNSUBSCRIPTION,
            sz.size(),
            seq,
            link,
            &parent,
        )?;
        let ghost body_sp = ctx@.sp;
        unsubscription::wrap_unsubscription(&mut ctx, &self.identity)?;
        let r = self.finish_send(addr, ctx, seq);
        proof {
            if r is Ok {
                let h = gh@;
                let sigv = crate::id::ed25519_sig(
                    old(self).identity.sk_spec(),
                    crate::message::sigsec_hash(body_sp, old(self).id_spec()),
                );
                assert(sent_unsubscription_wire(*old(self), link@, h, sigv));
            }
        }
        r
    }

    /// Send a signed packet linked to `link`.
    #[verifier::rlimit(100)]
    #[verifier::spinoff_prover]
    pub fn send_signed_packet(
        &mut self,
        link: &MsgId,
        public: &Vec<u8>,
        masked: &Vec<u8>,
    ) -> (r: Result<Address, Error>)
        requires
            old(self).wf(),
            link@.len() == 12,
        ensures
            final(self).wf(),
            final(self).id_spec() == old(self).id_spec(),
            final(self).stream_spec() == old(self).stream_spec(),
            forall|k: Seq<u8>| old(self).has_snapshot(k) ==> final(self).has_snapshot(k),
            old(self).stream_spec() is None ==> r is Err,
            !old(self).has_snapshot(link@) ==> r is Err,
            r matches Ok(a) ==> final(self).has_snapshot(a@.1) && (match old(self).stream_spec() {
                Some(st) => a@.0 == st.0 && a@.1 == msgid_of(
                    st.0,
                    old(self).id_spec(),
                    old(self).base_topic_spec(),
                    (match old(self).cursor_spec(
                        (id_encoding(old(self).id_spec()), old(self).base_topic_spec()),
                    ) {
                        Some(c0) => c0,
                        None => INITIAL_CURSOR,
                    }),
                ),
                None => false,
            }),
            r matches Ok(a) ==> ({
                let idx = crate::address::msg_index_of(a@.0, a@.1);
                let before = if old(self).inbox_spec().contains_key(idx) {
                    old(self).inbox_spec()[idx]
                } else {
                    Seq::empty()
                };
                exists|h: HDF, sig: Seq<u8>|
                    sent_signed_packet_wire(
                        *old(self),
                        link@,
                        public@,
                        masked@,
                        h,
                        sig,
                    ) && final(self).inbox_spec() == old(self).inbox_spec().insert(
                        idx,
                        before.push(
                            crate::message::hdf::hdf_wire(sp_new(), h)
                                + crate::message::packet::packet_core_wire(
                                sp_join(
                                    crate::message::hdf::hdf_sp(sp_new(), h),
                                    old(self).snapshot_spec(link@)->Some_0,
                                ),
                                public@,
                                masked@,
                            ) + sig,
                        ),
                    )
            }),
    {
        let parent = match self.store_get(link) {
            Some(s) => s.fork(),
            None => {
                return Err(Error::State("unknown parent message"));
            },
        };
        let seq = self.own_next_seq()?;
        let mut sz = sizeof::Context::new();
        packet::sizeof_signed_packet(&mut sz, public, masked)?;
        let (mut ctx, addr, gh) = self.start_linked_wrap(
            FRAME_SIGNED_PACKET,
            sz.size(),
            seq,
            link,
            &parent,
        )?;
        let ghost body_sp = ctx@.sp;
        packet::wrap_signed_packet(&mut ctx, &self.identity, public, masked)?;
        let r = self.finish_send(addr, ctx, seq);
        proof {
            if r is Ok {
                let h = gh@;
                let sigv = crate::id::ed25519_sig(
                    old(self).identity.sk_spec(),
                    crate::message::packet::signed_packet_hash(body_sp, public@, masked@),
                );
                assert(crate::message::hdf::hdf_wf(h));
                assert(h.frame_type == FRAME_SIGNED_PACKET);
                assert(h.payload_length == crate::message::packet::packet_core_len(
                    public@,
                    masked@,
                ) + 64);
                assert(h.seq_num == (match old(self).cursor_spec(
                    (id_encoding(old(self).id_spec()), old(self).base_topic_spec()),
                ) {
                    Some(c0) => c0,
                    None => INITIAL_CURSOR,
                }));
                assert(h.topic_hash@ == topic_hash_of(old(self).base_topic_spec()));
                assert(id_tag(h.publisher) == 0);
                assert(id_payload(h.publisher) == id_payload(old(self).id_spec()));
                assert(h.linked_msg_address matches Some(m) && m@ == link@);
                assert(sigv.len() == 64);
                assert(body_sp == sp_join(
                    crate::message::hdf::hdf_sp(sp_new(), h),
                    old(self).snapshot_spec(link@)->Some_0,
                ));
                assert(crate::id::ed25519_accepts(
                    id_payload(old(self).id_spec()),
                    crate::message::packet::signed_packet_hash(body_sp, public@, masked@),
                    sigv,
                ));
                assert(sent_signed_packet_wire(*old(self), link@, public@, masked@, h, sigv));
            }
        }
        r
    }

    /// Send a tagged packet linked to `link`: authenticated by sponge state
    /// alone.
    pub fn send_tagged_packet(
        &mut self,
        link: &MsgId,
        public: &Vec<u8>,
        masked: &Vec<u8>,
    ) -> (r: Result<Address, Error>)
        requires
            old(self).wf(),
            link@.len() == 12,
        ensures
            final(self).wf(),
            final(self).id_spec() == old(self).id_spec(),
            final(self).stream_spec() == old(self).stream_spec(),
            forall|k: Seq<u8>| old(self).has_snapshot(k) ==> final(self).has_snapshot(k),
            old(self).stream_spec() is None ==> r is Err,
            !old(self).has_snapshot(link@) ==> r is Err,
            old(self).cursor_spec((id_encoding(old(self).id_spec()), old(self).base_topic_spec()))
                == Some(u32::MAX) ==> r is Err,
            r matches Ok(a) ==> final(self).has_snapshot(a@.1),
            r matches Ok(a) ==> ({
                let idx = crate::address::msg_index_of(a@.0, a@.1);
                let before = if old(self).inbox_spec().contains_key(idx) {
                    old(self).inbox_spec()[idx]
                } else {
                    Seq::empty()
                };
                exists|h: HDF|
                    sent_tagged_packet_wire(*old(self), link@, public@, masked@, h) && ({
                        let body_sp = sp_join(
                            crate::message::hdf::hdf_sp(sp_new(), h),
                            old(self).snapshot_spec(link@)->Some_0,
                        );
                        final(self).inbox_spec() == old(self).inbox_spec().insert(
                            idx,
                            before.push(
                                crate::message::hdf::hdf_wire(sp_new(), h)
                                    + crate::message::packet::packet_core_wire(
                                    body_sp,
                                    public@,
                                    masked@,
                                ) + crate::sponge::sp_squeeze(
                                    crate::message::packet::packet_core_sp(
                                        body_sp,
                                        public@,
                                        masked@,
                                    ),
                                    32,
                                ).1,
                            ),
                        )
                    })
            }),
    {
        let parent = match self.store_get(link) {
            Some(s) => s.fork(),
            None => {
                return Err(Error::State("unknown parent message"));
            },
        };
        let seq = self.own_next_seq()?;
        let mut sz = sizeof::Context::new();
        packet::sizeof_tagged_packet(&mut sz, public, masked)?;
        let (mut ctx, addr, gh) = self.start_linked_wrap(
            FRAME_TAGGED_PACKET,
            sz.size(),
            seq,
            link,
            &parent,
        )?;
        let ghost body_sp = ctx@.sp;
        packet::wrap_tagged_packet(&mut ctx, public, masked)?;
        let r = self.finish_send(addr, ctx, seq);
        proof {
            if r is Ok {
                let h = gh@;
                assert(sent_tagged_packet_wire(*old(self), link@, public@, masked@, h));
            }
        }
        r
    }

    /// Send a keyload for the given recipients, linked to `link` for
    /// ordering. Cryptographically a keyload always chains from the stream
    /// root, so recipients can open it without having read the branch.
    pub fn send_keyload(&mut self, link: &MsgId, recipients: &Vec<Identifier>) -> (r: Result<
        Address,
        Error,
    >)
        requires
            old(self).wf(),
            link@.len() == 12,
            forall|j: int| 0 <= j < recipients@.len() ==> id_wf(#[trigger] recipients@[j]),
        ensures
            final(self).wf(),
            final(self).id_spec() == old(self).id_spec(),
            final(self).stream_spec() == old(self).stream_spec(),
            forall|k: Seq<u8>| old(self).has_snapshot(k) ==> final(self).has_snapshot(k),
            old(self).stream_spec() is None ==> r is Err,
            r matches Ok(a) ==> final(self).has_snapshot(a@.1),
            r matches Ok(a) ==> ({
                let idx = crate::address::msg_index_of(a@.0, a@.1);
                let before = if old(self).inbox_spec().contains_key(idx) {
                    old(self).inbox_spec()[idx]
                } else {
                    Seq::empty()
                };
                exists|h: HDF, nonce: Seq<u8>, es: Seq<KeyloadEntry>, key: Seq<u8>, sig: Seq<
                    u8,
                >|
                    sent_keyload_wire(*old(self), link@, recipients@, h, nonce, es, key, sig)
                        && final(self).inbox_spec() == old(self).inbox_spec().insert(
                        idx,
                        before.push(
                            crate::message::hdf::hdf_wire(sp_new(), h) + keyload_wire(
                                sp_join(
                                    crate::message::hdf::hdf_sp(sp_new(), h),
                                    old(self).snapshot_spec(
                                        old(self).stream_spec()->Some_0.1,
                                    )->Some_0,
                                ),
                                nonce,
                                es,
                                key,
                                sig,
                            ),
                        ),
                    )
            }),
    {
        let root_rel = match &self.stream_address {
            Some(sa) => MsgId::from_bytes(vec_dup(sa.relative().as_bytes())),
            None => {
                return Err(Error::State("send before announcement"));
            },
        };
        let root = match self.store_get(&root_rel) {
            Some(s) => s.fork(),
            None => {
                return Err(Error::State("announcement snapshot missing"));
            },
        };
        // Session secrets for each recipient.
        let mut entries: Vec<KeyloadEntry> = Vec::new();
        let mut j: usize = 0;
        while j < recipients.len()
            invariant
                old(self).wf(),
                self == old(self),
                forall|i2: int| 0 <= i2 < recipients@.len() ==> id_wf(
                    #[trigger] recipients@[i2],
                ),
                j <= recipients@.len(),
                entries@.len() == j,
                forall|i2: int| 0 <= i2 < entries@.len() ==> keyload::entry_wf(
                    #[trigger] entries@[i2],
                ) && id_eq_spec((#[trigger] entries@[i2]).id, recipients@[i2]),
            decreases recipients@.len() - j,
        {
            let rec = &recipients[j];
            let shared = match rec {
                Identifier::EdPubKey(_) => match self.identity.exchange(rec) {
                    Ok(s) => s,
                    Err(_) => {
                        return Err(Error::State("unknown recipient"));
                    },
                },
                Identifier::PskId(pid) => {
                    let mut found: Option<Vec<u8>> = None;
                    let mut k: usize = 0;
                    while k < self.psks.len()
                        invariant
                            old(self).wf(),
                            self == old(self),
                            k <= self.psks@.len(),
                            found matches Some(s) ==> s@.len() == 32,
                        decreases self.psks@.len() - k,
                    {
                        if found.is_none() && crate::address::bytes_eq(&self.psks[k].0, pid) {
                            found = Some(vec_dup(&self.psks[k].1));
                        }
                        k = k + 1;
                    }
                    match found {
                        Some(s) => s,
                        None => {
                            return Err(Error::State("unknown recipient"));
                        },
                    }
                },
            };
            entries.push(KeyloadEntry { id: rec.dup(), shared });
            j = j + 1;
        }
        let seq = self.own_next_seq()?;
        // A fresh random nonce and session key for this keyload.
        let nonce = crate::id::random_bytes(16)?;
        let session_key = crate::id::random_bytes(32)?;
        let mut sz = sizeof::Context::new();
        keyload::sizeof_keyload(&mut sz, &entries)?;
        let (mut ctx, addr, gh) = self.start_linked_wrap(
            FRAME_KEYLOAD,
            sz.size(),
            seq,
            link,
            &root,
        )?;
        let ghost body_sp = ctx@.sp;
        keyload::wrap_keyload(&mut ctx, &self.identity, &nonce, &entries, &session_key)?;
        let ghost noncev = nonce@;
        let ghost esv = entries@;
        let ghost keyv = session_key@;
        let r = self.finish_send(addr, ctx, seq);
        proof {
            if r is Ok {
                let h = gh@;
                let sigv = crate::id::ed25519_sig(
                    old(self).identity.sk_spec(),
                    keyload_hash(body_sp, noncev, esv, keyv),
                );
                assert(sent_keyload_wire(
                    *old(self),
                    link@,
                    recipients@,
                    h,
                    noncev,
                    esv,
                    keyv,
                    sigv,
                ));
            }
        }
        r
    }

    /// Send a keyload to every known subscriber and every registered
    /// pre-shared key.
    pub fn send_keyload_for_everyone(&mut self, link: &MsgId) -> (r: Result<Address, Error>)
        requires
            old(self).wf(),
            link@.len() == 12,
        ensures
            final(self).wf(),
            final(self).id_spec() == old(self).id_spec(),
            final(self).stream_spec() == old(self).stream_spec(),
            forall|k: Seq<u8>| old(self).has_snapshot(k) ==> final(self).has_snapshot(k),
            old(self).stream_spec() is None ==> r is Err,
            r matches Ok(a) ==> final(self).has_snapshot(a@.1),
    {
        let mut recipients: Vec<Identifier> = Vec::new();
        let mut j: usize = 0;
        while j < self.subscribers.len()
            invariant
                old(self).wf(),
                self == old(self),
                j <= self.subscribers@.len(),
                forall|i2: int| 0 <= i2 < recipients@.len() ==> id_wf(
                    #[trigger] recipients@[i2],
                ),
            decreases self.subscribers@.len() - j,
        {
            if crate::id::id_wf_exec(&self.subscribers[j]) {
                recipients.push(self.subscribers[j].dup());
            }
            j = j + 1;
        }
        let mut k: usize = 0;
        while k < self.psks.len()
            invariant
                old(self).wf(),
                self == old(self),
                k <= self.psks@.len(),
                forall|i2: int| 0 <= i2 < recipients@.len() ==> id_wf(
                    #[trigger] recipients@[i2],
                ),
            decreases self.psks@.len() - k,
        {
            recipients.push(Identifier::PskId(vec_dup(&self.psks[k].0)));
            k = k + 1;
        }
        self.send_keyload(link, &recipients)
    }

    /// Record a subscriber (idempotent).
    fn subscriber_add(&mut self, id: &Identifier)
        requires
            old(self).wf(),
        ensures
            final(self).wf(),
            final(self).id_spec() == old(self).id_spec(),
            final(self).base_topic_spec() == old(self).base_topic_spec(),
            final(self).stream_spec() == old(self).stream_spec(),
            final(self).cursor_entries() == old(self).cursor_entries(),
            forall|k: Seq<u8>| old(self).has_snapshot(k) == final(self).has_snapshot(k),
            subs_has(final(self).subscribers_spec(), id_encoding(*id)),
    {
        let mut j: usize = 0;
        while j < self.subscribers.len()
            invariant
                old(self).wf(),
                self == old(self),
                j <= self.subscribers@.len(),
            decreases self.subscribers@.len() - j,
        {
            if self.subscribers[j].equals(id) {
                proof {
                    assert(id_encoding(self.subscribers@[j as int]) =~= id_encoding(*id));
                }
                return ;
            }
            j = j + 1;
        }
        let d = id.dup();
        proof {
            assert(id_encoding(d) =~= id_encoding(*id));
        }
        self.subscribers.push(d);
        proof {
            assert(id_encoding(self.subscribers@[self.subscribers@.len() - 1]) == id_encoding(
                *id,
            ));
        }
    }

    /// Forget a subscriber.
    fn subscriber_remove(&mut self, id: &Identifier)
        requires
            old(self).wf(),
        ensures
            final(self).wf(),
            final(self).id_spec() == old(self).id_spec(),
            final(self).base_topic_spec() == old(self).base_topic_spec(),
            final(self).stream_spec() == old(self).stream_spec(),
            final(self).cursor_entries() == old(self).cursor_entries(),
            forall|k: Seq<u8>| old(self).has_snapshot(k) == final(self).has_snapshot(k),
            !subs_has(final(self).subscribers_spec(), id_encoding(*id)),
    {
        let mut kept: Vec<Identifier> = Vec::new();
        let mut j: usize = 0;
        while j < self.subscribers.len()
            invariant
                old(self).wf(),
                self == old(self),
                j <= self.subscribers@.len(),
                forall|i2: int| 0 <= i2 < kept@.len() ==> id_encoding(#[trigger] kept@[i2])
                    != id_encoding(*id),
            decreases self.subscribers@.len() - j,
        {
            if !self.subscribers[j].equals(id) {
                let d = self.subscribers[j].dup();
                proof {
                    assert(id_encoding(d) =~= id_encoding(self.subscribers@[j as int]));
                    assert(id_encoding(d) != id_encoding(*id)) by {
                        if id_encoding(d) == id_encoding(*id) {
                            crate::id::lemma_id_encoding_injective(d, *id);
                        }
                    }
                }
                kept.push(d);
            }
            j = j + 1;
        }
        self.subscribers = kept;
    }
}


impl<T: Transport> User<T> {
    /// Fetch the blob at `address` from the transport and handle it.
    pub fn receive_message(&mut self, address: Address) -> (r: Result<Message, Error>)
        requires
            old(self).wf(),
            address.wf(),
        ensures
            final(self).wf(),
            final(self).id_spec() == old(self).id_spec(),
            old(self).stream_spec() is Some ==> final(self).stream_spec() == old(
                self,
            ).stream_spec(),
            forall|k: Seq<u8>| old(self).has_snapshot(k) ==> final(self).has_snapshot(k),
            forall|k2: (Seq<u8>, Seq<u8>)|
                (#[trigger] old(self).cursor_spec(k2) matches Some(c) ==> (
                final(self).cursor_spec(k2) matches Some(c2) && c2 >= c)),
    {
        let kept = address.dup();
        let msg = match self.transport.recv_message(address) {
            Ok(m) => m,
            Err(e) => {
                return Err(e);
            },
        };
        let ghost mid = *self;
        let r = self.handle_message(kept, msg);
        proof {
            assert forall|k2: (Seq<u8>, Seq<u8>)|
                (#[trigger] old(self).cursor_spec(k2)) is Some implies (self.cursor_spec(k2)
                is Some && self.cursor_spec(k2)->Some_0 >= old(self).cursor_spec(
                k2,
            )->Some_0) by {
                assert(mid.cursor_spec(k2) == old(self).cursor_spec(k2));
            }
        }
        r
    }

    /// Decode one blob: parse the header, restore the linked snapshot,
    /// unwrap and verify the body, and update cursors and stores. A message
    /// whose parent snapshot is missing comes back as an orphan carrying
    /// the blob, for the reader to retry later.
    #[verifier::rlimit(100)]
    #[verifier::spinoff_prover]
    pub fn handle_message(&mut self, address: Address, msg: TransportMessage) -> (r: Result<
        Message,
        Error,
    >)
        requires
            old(self).wf(),
            address.wf(),
        ensures
            final(self).wf(),
            final(self).id_spec() == old(self).id_spec(),
            final(self).base_topic_spec() == old(self).base_topic_spec(),
            old(self).stream_spec() is Some ==> final(self).stream_spec() == old(
                self,
            ).stream_spec(),
            forall|k: Seq<u8>| old(self).has_snapshot(k) ==> final(self).has_snapshot(k),
            forall|k2: (Seq<u8>, Seq<u8>)|
                (#[trigger] old(self).cursor_spec(k2) matches Some(c) ==> (
                final(self).cursor_spec(k2) matches Some(c2) && c2 >= c)),
            r matches Ok(m) ==> m.address@ == address@,
            r matches Ok(m) ==> (m.content matches MessageContent::Orphan(o) ==> (o.message@
                == msg@ && m.header.linked_msg_address is Some)),
            r matches Ok(m) ==> (!(m.content matches MessageContent::Orphan(_)) && (
            m.header.frame_type == FRAME_SUBSCRIPTION || m.header.frame_type
                == FRAME_UNSUBSCRIPTION || m.header.frame_type == FRAME_SIGNED_PACKET
                || m.header.frame_type == FRAME_TAGGED_PACKET) ==> (m.header.linked_msg_address
                matches Some(l) && old(self).has_snapshot(l@))),
            announcement_blob_accepted(*old(self), address@, msg@) ==> (r matches Ok(m) && (
            m.content matches MessageContent::Announcement { author_id } && id_payload(
                author_id,
            ) == hdf_parse(sp_new(), msg@, 0)->Some_0.0.publisher_payload) && final(self).stream_spec() == Some(address@)),
            signed_packet_blob_accepted(*old(self), address@, msg@) ==> (r matches Ok(m)
                && m.header.frame_type == FRAME_SIGNED_PACKET && (
            m.content matches MessageContent::SignedPacket {
                publisher,
                public_payload,
                masked_payload,
            } && ({
                let parsed = hdf_parse(sp_new(), msg@, 0)->Some_0;
                let body = signed_packet_parse(
                    linked_body_sp(*old(self), msg@),
                    msg@,
                    parsed.2,
                    parsed.0.publisher_payload,
                )->Some_0;
                id_payload(publisher) == parsed.0.publisher_payload && public_payload@
                    == body.0 && masked_payload@ == body.1
            }))),
            tagged_packet_blob_accepted(*old(self), address@, msg@) ==> (r matches Ok(m)
                && m.header.frame_type == FRAME_TAGGED_PACKET && (
            m.content matches MessageContent::TaggedPacket { public_payload, masked_payload }
                && ({
                let parsed = hdf_parse(sp_new(), msg@, 0)->Some_0;
                let body = tagged_packet_parse(
                    linked_body_sp(*old(self), msg@),
                    msg@,
                    parsed.2,
                )->Some_0;
                public_payload@ == body.0 && masked_payload@ == body.1
            }))),
            subscription_blob_accepted(*old(self), address@, msg@) ==> (r matches Ok(m) && (
            m.content matches MessageContent::Subscription { subscriber_id } && id_payload(
                subscriber_id,
            ) == hdf_parse(sp_new(), msg@, 0)->Some_0.0.publisher_payload)),
    {
        let blob = vec_dup(msg.as_bytes());
        let mut ctx = unwrap::Context::new(Spongos::new(), blob);
        let hdf = unwrap_hdf(&mut ctx)?;
        let th = topic_hash(&self.base_topic);
        if !crate::address::bytes_eq(&hdf.topic_hash, &th) {
            return Err(Error::Malformed("header", "topic hash"));
        }
        let seq = hdf.seq_num;
        if seq == u32::MAX {
            return Err(Error::Malformed("header", "sequence number"));
        }
        let next_seq = seq + 1;
        // Cursor policy: a decoded header advances the publisher's lane,
        // readable or not, so the reader never re-fetches the same slot.
        let ghost s_pre_cur = *self;
        let topic0 = vec_dup(&self.base_topic);
        let pub0 = hdf.publisher.dup();
        self.cursor_set_max(&pub0, &topic0, next_seq);
        if hdf.frame_type == FRAME_ANNOUNCEMENT {
            let u = announcement::unwrap_announcement(&mut ctx)?;
            let author = u.into_author_id();
            if !author.equals(&hdf.publisher) {
                return Err(Error::Malformed("announcement", "publisher"));
            }
            match &self.stream_address {
                Some(existing) => {
                    if !crate::address::bytes_eq(
                        existing.base().as_bytes(),
                        address.base().as_bytes(),
                    ) || !existing.relative().equals(address.relative()) {
                        return Err(Error::Malformed("announcement", "stream address"));
                    }
                },
                None => (),
            }
            let snap = ctx.into_spongos();
            match self.store_get(address.relative()) {
                Some(stored) => {
                    if !stored.equals(&snap) {
                        return Err(Error::Malformed("message", "snapshot"));
                    }
                },
                None => (),
            }
            proof {
                assert(id_wf(author));
            }
            self.stream_address = Some(address.dup());
            self.author_identifier = Some(author.dup());
            self.store_insert(
                MsgId::from_bytes(vec_dup(address.relative().as_bytes())),
                snap,
            );
            return Ok(Message {
                address,
                header: hdf,
                content: MessageContent::Announcement { author_id: author },
            });
        }
        if self.stream_address.is_none() {
            return Err(Error::State("message before announcement"));
        }
        if hdf.frame_type == FRAME_KEYLOAD {
            let author_ok = match &self.author_identifier {
                Some(a) => a.equals(&hdf.publisher),
                None => false,
            };
            if !author_ok {
                return Err(Error::Malformed("keyload", "publisher"));
            }
            let root_rel = match &self.stream_address {
                Some(sa) => MsgId::from_bytes(vec_dup(sa.relative().as_bytes())),
                None => {
                    return Err(Error::State("message before announcement"));
                },
            };
            let root = match self.store_get(&root_rel) {
                Some(s) => s.fork(),
                None => {
                    return Err(Error::State("announcement snapshot missing"));
                },
            };
            ctx.join(&root)?;
            let (recipients, readable) = keyload::unwrap_keyload(
                &mut ctx,
                &self.identity,
                &self.psks,
                &hdf.publisher,
            )?;
            if readable {
                let snap = ctx.into_spongos();
                match self.store_get(address.relative()) {
                    Some(stored) => {
                        if !stored.equals(&snap) {
                            return Err(Error::Malformed("message", "snapshot"));
                        }
                    },
                    None => (),
                }
                self.store_insert(
                    MsgId::from_bytes(vec_dup(address.relative().as_bytes())),
                    snap,
                );
            }
            // Every Ed25519 recipient is a potential publisher: open a
            // cursor lane for each so the reader probes their messages.
            let ghost mid0 = *self;
            let mut ri: usize = 0;
            while ri < recipients.len()
                invariant
                    self.wf(),
                    self.id_spec() == mid0.id_spec(),
                    self.base_topic_spec() == mid0.base_topic_spec(),
                    self.stream_spec() == mid0.stream_spec(),
                    ri <= recipients@.len(),
                    forall|k: Seq<u8>| mid0.has_snapshot(k) ==> self.has_snapshot(k),
                    forall|k2: (Seq<u8>, Seq<u8>)|
                        (#[trigger] mid0.cursor_spec(k2) matches Some(c) ==> (
                        self.cursor_spec(k2) matches Some(c2) && c2 >= c)),
                decreases recipients@.len() - ri,
            {
                let ghost before = *self;
                if crate::id::id_wf_exec(&recipients[ri]) {
                    let rec = recipients[ri].dup();
                    let rtopic = vec_dup(&self.base_topic);
                    self.cursor_set_max(&rec, &rtopic, INITIAL_CURSOR);
                }
                ri = ri + 1;
                proof {
                    assert forall|k2: (Seq<u8>, Seq<u8>)|
                        (#[trigger] mid0.cursor_spec(k2)) is Some implies (
                    self.cursor_spec(k2) is Some && self.cursor_spec(k2)->Some_0
                        >= mid0.cursor_spec(k2)->Some_0) by {
                        assert(before.cursor_spec(k2) == before.cursor_spec(k2));
                    }
                }
            }
            proof {
                assert forall|k2: (Seq<u8>, Seq<u8>)|
                    (#[trigger] old(self).cursor_spec(k2)) is Some implies (self.cursor_spec(
                    k2,
                ) is Some && self.cursor_spec(k2)->Some_0 >= old(self).cursor_spec(
                    k2,
                )->Some_0) by {
                    assert(s_pre_cur.cursor_spec(k2) == old(self).cursor_spec(k2));
                    assert(mid0.cursor_spec(k2) is Some ==> self.cursor_spec(k2) is Some);
                }
            }
            return Ok(Message {
                address,
                header: hdf,
                content: MessageContent::Keyload { recipients, readable },
            });
        }
        // Parent-linked kinds: subscription, unsubscription, packets.
        let linked = match &hdf.linked_msg_address {
            Some(l) => MsgId::from_bytes(vec_dup(l.as_bytes())),
            None => {
                return Err(Error::Malformed("header", "missing link"));
            },
        };
        let parent = match self.store_get(&linked) {
            Some(s) => s.fork(),
            None => {
                return Ok(Message {
                    address,
                    header: hdf,
                    content: MessageContent::Orphan(Orphan { message: msg, cursor: seq }),
                });
            },
        };
        ctx.join(&parent)?;
        proof {
            if linked_blob_header_ok(*old(self), address@, msg@, hdf.frame_type) {
                assert(ctx@.sp == linked_body_sp(*old(self), msg@));
                assert(ctx@.pos == hdf_parse(sp_new(), msg@, 0)->Some_0.2);
            }
        }
        let content: MessageContent = if hdf.frame_type == FRAME_SUBSCRIPTION {
            let sub = subscription::unwrap_subscription(&mut ctx)?;
            if !sub.equals(&hdf.publisher) {
                return Err(Error::Malformed("subscription", "publisher"));
            }
            self.subscriber_add(&sub);
            MessageContent::Subscription { subscriber_id: sub }
        } else if hdf.frame_type == FRAME_UNSUBSCRIPTION {
            let sub = unsubscription::unwrap_unsubscription(&mut ctx)?;
            if !sub.equals(&hdf.publisher) {
                return Err(Error::Malformed("unsubscription", "publisher"));
            }
            self.subscriber_remove(&sub);
            MessageContent::Unsubscription { subscriber_id: sub }
        } else if hdf.frame_type == FRAME_SIGNED_PACKET {
            let pk = match &hdf.publisher {
                Identifier::EdPubKey(pk) => pk,
                Identifier::PskId(_) => {
                    return Err(Error::Malformed("signed packet", "publisher"));
                },
            };
            let (public_payload, masked_payload) = packet::unwrap_signed_packet(&mut ctx, pk)?;
            MessageContent::SignedPacket {
                publisher: hdf.publisher.dup(),
                public_payload,
                masked_payload,
            }
        } else if hdf.frame_type == FRAME_TAGGED_PACKET {
            let (public_payload, masked_payload) = packet::unwrap_tagged_packet(&mut ctx)?;
            MessageContent::TaggedPacket { public_payload, masked_payload }
        } else {
            return Err(Error::Malformed("header", "frame type"));
        };
        let snap = ctx.into_spongos();
        match self.store_get(address.relative()) {
            Some(stored) => {
                if !stored.equals(&snap) {
                    return Err(Error::Malformed("message", "snapshot"));
                }
            },
            None => (),
        }
        self.store_insert(MsgId::from_bytes(vec_dup(address.relative().as_bytes())), snap);
        Ok(Message { address, header: hdf, content })
    }
}


impl<T: Transport> User<T> {
    /// Receive the single blob at `address` from the transport, leaving the
    /// user state untouched.
    pub fn transport_recv(&mut self, address: Address) -> (r: Result<TransportMessage, Error>)
        requires
            old(self).wf(),
            address.wf(),
        ensures
            final(self).wf(),
            final(self).id_spec() == old(self).id_spec(),
            final(self).base_topic_spec() == old(self).base_topic_spec(),
            final(self).stream_spec() == old(self).stream_spec(),
            final(self).cursor_entries() == old(self).cursor_entries(),
            forall|k: Seq<u8>| old(self).has_snapshot(k) == final(self).has_snapshot(k),
    {
        self.transport.recv_message(address)
    }

    /// A fresh reader over this stream's pending messages.
    pub fn messages(&self) -> (r: crate::messages::Messages) {
        crate::messages::Messages::new()
    }

    /// Drain the pending messages, handling each: the number handled.
    pub fn sync(&mut self) -> (r: Result<usize, Error>)
        requires
            old(self).wf(),
        ensures
            final(self).wf(),
            final(self).id_spec() == old(self).id_spec(),
            old(self).stream_spec() is None ==> (r matches Ok(n) && n == 0),
    {
        let mut reader = crate::messages::Messages::new();
        let mut n: usize = 0;
        let mut fuel: usize = crate::messages::MAX_STEPS_PER_CALL;
        while fuel > 0
            invariant
                self.wf(),
                self.id_spec() == old(self).id_spec(),
                old(self).stream_spec() is None ==> n == 0 && *self == *old(self),
            decreases fuel,
        {
            fuel = fuel - 1;
            match reader.next(self) {
                Some(Ok(_)) => {
                    if n < usize::MAX {
                        n = n + 1;
                    }
                },
                Some(Err(_)) => (),
                None => {
                    return Ok(n);
                },
            }
        }
        Ok(n)
    }

    /// Collect every currently pending readable message, in topological
    /// order.
    pub fn fetch_next_messages(&mut self) -> (r: Result<Vec<Message>, Error>)
        requires
            old(self).wf(),
        ensures
            final(self).wf(),
            final(self).id_spec() == old(self).id_spec(),
            old(self).stream_spec() is None ==> (r matches Ok(v) && v@.len() == 0),
            r matches Ok(v) ==> forall|i: int|
                0 <= i < v@.len() ==> !((#[trigger] v@[i]).content
                    matches MessageContent::Orphan(_)) && (v@[i].header.frame_type
                    == FRAME_KEYLOAD || v@[i].header.frame_type == FRAME_SIGNED_PACKET
                    || v@[i].header.frame_type == FRAME_TAGGED_PACKET),
    {
        let mut reader = crate::messages::Messages::new();
        let mut out: Vec<Message> = Vec::new();
        let mut fuel: usize = crate::messages::MAX_STEPS_PER_CALL;
        while fuel > 0
            invariant
                self.wf(),
                self.id_spec() == old(self).id_spec(),
                old(self).stream_spec() is None ==> out@.len() == 0 && *self == *old(self),
                forall|i: int|
                    0 <= i < out@.len() ==> !((#[trigger] out@[i]).content
                        matches MessageContent::Orphan(_)) && (out@[i].header.frame_type
                        == FRAME_KEYLOAD || out@[i].header.frame_type == FRAME_SIGNED_PACKET
                        || out@[i].header.frame_type == FRAME_TAGGED_PACKET),
            decreases fuel,
        {
            fuel = fuel - 1;
            match reader.next(self) {
                Some(Ok(m)) => {
                    out.push(m);
                },
                Some(Err(_)) => (),
                None => {
                    return Ok(out);
                },
            }
        }
        Ok(out)
    }
}

/// Appending an entry leaves lookups of other keys unchanged and resolves
/// the new key when it was absent.
pub proof fn lemma_cur_find_push(s: Seq<CursorEntry>, e: CursorEntry)
    ensures
        forall|k: (Seq<u8>, Seq<u8>), i: int|
            0 <= i <= s.len() && k != cur_key(e) ==> #[trigger] cur_find(s.push(e), k, i)
                == cur_find(s, k, i),
        cur_find(s, cur_key(e), 0) is None ==> cur_find(s.push(e), cur_key(e), 0) == Some(
            e.cursor,
        ),
{
    assert forall|k: (Seq<u8>, Seq<u8>), i: int|
        0 <= i <= s.len() && k != cur_key(e) implies #[trigger] cur_find(s.push(e), k, i)
        == cur_find(s, k, i) by {
        lemma_cur_find_push_one(s, e, k, i);
    }
    if cur_find(s, cur_key(e), 0) is None {
        lemma_cur_find_push_absent(s, e, 0);
    }
}

pub proof fn lemma_cur_find_push_one(
    s: Seq<CursorEntry>,
    e: CursorEntry,
    k: (Seq<u8>, Seq<u8>),
    i: int,
)
    requires
        0 <= i <= s.len(),
        k != cur_key(e),
    ensures
        cur_find(s.push(e), k, i) == cur_find(s, k, i),
    decreases s.len() - i,
{
    if i < s.len() {
        assert(s.push(e)[i] == s[i]);
        lemma_cur_find_push_one(s, e, k, i + 1);
    } else {
        assert(s.push(e)[i] == e);
        assert(cur_find(s, k, i) is None);
        assert(cur_find(s.push(e), k, i + 1) is None);
    }
}

pub proof fn lemma_cur_find_push_absent(s: Seq<CursorEntry>, e: CursorEntry, i: int)
    requires
        0 <= i <= s.len(),
        cur_find(s, cur_key(e), i) is None,
    ensures
        cur_find(s.push(e), cur_key(e), i) == Some(e.cursor),
    decreases s.len() - i,
{
    if i < s.len() {
        assert(s.push(e)[i] == s[i]);
        lemma_cur_find_push_absent(s, e, i + 1);
    } else {
        assert(s.push(e)[i] == e);
        assert(cur_find(s.push(e), cur_key(e), i) == Some(e.cursor));
    }
}

/// Updating the entry at `i` (same key) affects only that key's lookup,
/// and only when no earlier entry shadows it.
pub proof fn lemma_cur_find_update(s1: Seq<CursorEntry>, s2: Seq<CursorEntry>, i: int)
    requires
        0 <= i < s1.len(),
        s2 == s1.update(i, s2[i]),
        s2.len() == s1.len(),
        cur_key(s2[i]) == cur_key(s1[i]),
        forall|j: int| 0 <= j < i ==> cur_key(#[trigger] s1[j]) != cur_key(s1[i]),
    ensures
        forall|k: (Seq<u8>, Seq<u8>)|
            k != cur_key(s1[i]) ==> #[trigger] cur_find(s2, k, 0) == cur_find(s1, k, 0),
        cur_find(s2, cur_key(s1[i]), 0) == Some(s2[i].cursor),
{
    assert forall|k: (Seq<u8>, Seq<u8>)| k != cur_key(s1[i]) implies #[trigger] cur_find(
        s2,
        k,
        0,
    ) == cur_find(s1, k, 0) by {
        lemma_cur_find_update_other(s1, s2, i, k, 0);
    }
    lemma_cur_find_update_same(s1, s2, i, 0);
}

pub proof fn lemma_cur_find_update_other(
    s1: Seq<CursorEntry>,
    s2: Seq<CursorEntry>,
    i: int,
    k: (Seq<u8>, Seq<u8>),
    j: int,
)
    requires
        0 <= i < s1.len(),
        s2 == s1.update(i, s2[i]),
        s2.len() == s1.len(),
        cur_key(s2[i]) == cur_key(s1[i]),
        k != cur_key(s1[i]),
        0 <= j <= s1.len(),
    ensures
        cur_find(s2, k, j) == cur_find(s1, k, j),
    decreases s1.len() - j,
{
    if j < s1.len() {
        if j != i {
            assert(s2[j] == s1[j]);
        }
        lemma_cur_find_update_other(s1, s2, i, k, j + 1);
    }
}

pub proof fn lemma_cur_find_update_same(s1: Seq<CursorEntry>, s2: Seq<CursorEntry>, i: int, j: int)
    requires
        0 <= i < s1.len(),
        s2 == s1.update(i, s2[i]),
        s2.len() == s1.len(),
        cur_key(s2[i]) == cur_key(s1[i]),
        forall|jj: int| 0 <= jj < i ==> cur_key(#[trigger] s1[jj]) != cur_key(s1[i]),
        0 <= j <= i,
    ensures
        cur_find(s2, cur_key(s1[i]), j) == Some(s2[i].cursor),
    decreases i - j,
{
    if j < i {
        assert(s2[j] == s1[j]);
        lemma_cur_find_update_same(s1, s2, i, j + 1);
    }
}

pub proof fn lemma_store_find_push(s: Seq<(MsgId, Spongos)>, e: (MsgId, Spongos))
    ensures
        forall|k: Seq<u8>, i: int|
            0 <= i <= s.len() && k != e.0@ ==> #[trigger] store_find(s.push(e), k, i)
                == store_find(s, k, i),
        store_find(s, e.0@, 0) is None ==> store_find(s.push(e), e.0@, 0) == Some(e.1@),
        forall|k: Seq<u8>, i: int|
            0 <= i <= s.len() && store_find(s, k, i) is Some ==> #[trigger] store_find(
                s.push(e),
                k,
                i,
            ) == store_find(s, k, i),
{
    assert forall|k: Seq<u8>, i: int| 0 <= i <= s.len() && k != e.0@ implies #[trigger] store_find(
        s.push(e),
        k,
        i,
    ) == store_find(s, k, i) by {
        lemma_store_find_push_one(s, e, k, i);
    }
    if store_find(s, e.0@, 0) is None {
        lemma_store_find_push_absent(s, e, 0);
    }
    assert forall|k: Seq<u8>, i: int|
        0 <= i <= s.len() && store_find(s, k, i) is Some implies #[trigger] store_find(
        s.push(e),
        k,
        i,
    ) == store_find(s, k, i) by {
        lemma_store_find_push_present(s, e, k, i);
    }
}

pub proof fn lemma_store_find_push_one(
    s: Seq<(MsgId, Spongos)>,
    e: (MsgId, Spongos),
    k: Seq<u8>,
    i: int,
)
    requires
        0 <= i <= s.len(),
        k != e.0@,
    ensures
        store_find(s.push(e), k, i) == store_find(s, k, i),
    decreases s.len() - i,
{
    if i < s.len() {
        assert(s.push(e)[i] == s[i]);
        lemma_store_find_push_one(s, e, k, i + 1);
    } else {
        assert(s.push(e)[i] == e);
        assert(store_find(s, k, i) is None);
        assert(store_find(s.push(e), k, i + 1) is None);
    }
}

pub proof fn lemma_store_find_push_absent(s: Seq<(MsgId, Spongos)>, e: (MsgId, Spongos), i: int)
    requires
        0 <= i <= s.len(),
        store_find(s, e.0@, i) is None,
    ensures
        store_find(s.push(e), e.0@, i) == Some(e.1@),
    decreases s.len() - i,
{
    if i < s.len() {
        assert(s.push(e)[i] == s[i]);
        lemma_store_find_push_absent(s, e, i + 1);
    } else {
        assert(s.push(e)[i] == e);
        assert(store_find(s.push(e), e.0@, i) == Some(e.1@));
    }
}

pub proof fn lemma_store_find_push_present(
    s: Seq<(MsgId, Spongos)>,
    e: (MsgId, Spongos),
    k: Seq<u8>,
    i: int,
)
    requires
        0 <= i <= s.len(),
        store_find(s, k, i) is Some,
    ensures
        store_find(s.push(e), k, i) == store_find(s, k, i),
    decreases s.len() - i,
{
    if i < s.len() {
        assert(s.push(e)[i] == s[i]);
        if s[i].0@ != k {
            lemma_store_find_push_present(s, e, k, i + 1);
        }
    }
}

} // verus!
