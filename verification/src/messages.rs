//! A reorder-tolerant reader over the messages of a stream.
//!
//! [`Messages`] polls the transport over every known publisher cursor,
//! queues blobs whose parent has not been handled yet, and yields messages
//! in topological (parent-before-child) order. Returning `None` does not
//! close the reader: later calls poll the transport again.

use vstd::prelude::*;
use std::collections::VecDeque;
use crate::address::{Address, AppAddr, MsgId};
use crate::error::Error;
use crate::id::{vec_dup, Identifier};
use crate::message::{
    Message, MessageContent, Topic, TransportMessage, FRAME_KEYLOAD, FRAME_SIGNED_PACKET,
    FRAME_TAGGED_PACKET,
};
use crate::transport::Transport;
use crate::user::User;

verus! {

/// What the orphan queue holds: for each parent address (by its bytes), the
/// queued `(relative address, blob)` pairs in arrival order.
pub uninterp spec fn msg_queue_view(q: MsgQueue) -> Map<Seq<u8>, Seq<(Seq<u8>, Seq<u8>)>>;

/// Orphaned blobs, keyed by the parent address they wait for.
#[verifier::external_body]
pub struct MsgQueue {
    map: hashbrown::HashMap<Vec<u8>, VecDeque<(MsgId, TransportMessage)>>,
}

impl MsgQueue {
    /// Relies on `hashbrown::HashMap::new`: an empty map.
    #[verifier::external_body]
    pub fn new() -> (r: MsgQueue)
        ensures
            msg_queue_view(r).dom() == Set::<Seq<u8>>::empty(),
    {
        MsgQueue { map: hashbrown::HashMap::new() }
    }

    /// Relies on `hashbrown::HashMap::entry` and `Entry::or_default`: the
    /// pair is appended to the queue stored under `parent`, which starts
    /// empty when the key is new; no other key changes.
    #[verifier::external_body]
    pub fn push(&mut self, parent: &Vec<u8>, rel: MsgId, msg: TransportMessage)
        ensures
            msg_queue_view(*final(self)) == msg_queue_view(*old(self)).insert(
                parent@,
                (if msg_queue_view(*old(self)).contains_key(parent@) {
                    msg_queue_view(*old(self))[parent@]
                } else {
                    Seq::empty()
                }).push((rel@, msg@)),
            ),
    {
        self.map.entry(parent.clone()).or_default().push_back((rel, msg));
    }

    /// Relies on `hashbrown::HashMap::remove`: takes the queue stored under
    /// `parent` out of the map, if any, leaving other keys untouched.
    #[verifier::external_body]
    pub fn remove(&mut self, parent: &Vec<u8>) -> (r: Option<VecDeque<(MsgId, TransportMessage)>>)
        ensures
            r is Some <==> msg_queue_view(*old(self)).contains_key(parent@),
            msg_queue_view(*final(self)) == msg_queue_view(*old(self)).remove(parent@),
            r matches Some(v) ==> v@.map_values(
                |e: (MsgId, TransportMessage)| (e.0@, e.1@),
            ) == msg_queue_view(*old(self))[parent@],
    {
        self.map.remove(parent)
    }
}

/// Whether the head of the reader's stage is a blob the user must accept
/// as a readable packet: the condition under which [`Messages::next`] owes
/// a yield that no outside call can prevent.
pub open spec fn staged_head_accepted(reader: Messages, user: User<impl Transport>) -> bool {
    &&& user.stream_spec() is Some
    &&& reader.stage_spec().len() > 0
    &&& reader.stage_spec()[0].0.len() == 12
    &&& ({
        let st = user.stream_spec()->Some_0;
        let head = reader.stage_spec()[0];
        crate::user::signed_packet_blob_accepted(user, (st.0, head.0), head.1)
            || crate::user::tagged_packet_blob_accepted(user, (st.0, head.0), head.1)
    })
}

/// The most transport probes and blob handlings one `next` call performs
/// before giving up for the round: a bound on the per-round gap.
pub const MAX_STEPS_PER_CALL: usize = 65536;

/// A lazy reader over the pending messages of a stream.
///
/// `next` returns the next message of the channel that this user can read,
/// in topological order; `None` means no further message is currently
/// available, and the reader stays usable.
pub struct Messages {
    ids_stack: Vec<(Identifier, Topic, u32)>,
    msg_queue: MsgQueue,
    stage: VecDeque<(MsgId, TransportMessage)>,
    successful_round: bool,
}

impl Messages {
    /// The orphan queue, as a map from parent address to queued blobs.
    pub closed spec fn queue_spec(&self) -> Map<Seq<u8>, Seq<(Seq<u8>, Seq<u8>)>> {
        msg_queue_view(self.msg_queue)
    }

    /// The staged blobs awaiting handling, as `(relative address, blob)`.
    pub closed spec fn stage_spec(&self) -> Seq<(Seq<u8>, Seq<u8>)> {
        Seq::new(self.stage@.len(), |i: int| (self.stage@[i].0@, self.stage@[i].1@))
    }

    /// The cursor lanes still to probe in the current round.
    pub closed spec fn ids_spec(&self) -> Seq<(Identifier, Topic, u32)> {
        self.ids_stack@
    }

    /// Whether the current probe round has hit an existing address yet.
    pub closed spec fn round_spec(&self) -> bool {
        self.successful_round
    }

    /// A fresh reader: every queue empty, no round in progress.
    pub fn new() -> (r: Messages)
        ensures
            r.queue_spec().dom() == Set::<Seq<u8>>::empty(),
            r.stage_spec().len() == 0,
            r.ids_spec().len() == 0,
            !r.round_spec(),
    {
        Messages {
            ids_stack: Vec::new(),
            msg_queue: MsgQueue::new(),
            stage: VecDeque::new(),
            successful_round: false,
        }
    }

    /// Fetch the next readable message of the channel.
    ///
    /// Every yielded message is in topological order: a yielded
    /// parent-linked message's parent snapshot is already in the user's
    /// store, and any blobs that were queued under the yielded address are
    /// staged for the next calls. Orphans are retained, never yielded.
    ///
    /// `None` comes in exactly three cases: no stream address is known
    /// yet, a full probe round over every known cursor lane found nothing
    /// on the transport, or the per-call step bound
    /// [`MAX_STEPS_PER_CALL`] ran out (the per-round cap a production
    /// reader imposes). None of them closes the reader.
    pub fn next<T: Transport>(&mut self, user: &mut User<T>) -> (r: Option<
        Result<Message, Error>,
    >)
        requires
            old(user).wf(),
        ensures
            final(user).wf(),
            final(user).id_spec() == old(user).id_spec(),
            old(user).stream_spec() is Some ==> final(user).stream_spec() == old(
                user,
            ).stream_spec(),
            forall|k: Seq<u8>| old(user).has_snapshot(k) ==> final(user).has_snapshot(k),
            old(user).stream_spec() is None ==> r is None && *final(self) == *old(self)
                && *final(user) == *old(user),
            r matches Some(res) ==> (res matches Ok(m) ==> !(m.content
                matches MessageContent::Orphan(_)) && (m.header.frame_type == FRAME_KEYLOAD
                || m.header.frame_type == FRAME_SIGNED_PACKET || m.header.frame_type
                == FRAME_TAGGED_PACKET) && ((m.header.frame_type == FRAME_SIGNED_PACKET
                || m.header.frame_type == FRAME_TAGGED_PACKET) ==> (m.header.linked_msg_address
                matches Some(l) && final(user).has_snapshot(l@))) && !final(self).queue_spec().contains_key(m.address@.1)),
            staged_head_accepted(*old(self), *old(user)) ==> (r matches Some(res)
                && res matches Ok(m) && m.address@ == (
            old(user).stream_spec()->Some_0.0,
            old(self).stage_spec()[0].0,
            )),
    {
        let mut fuel: usize = MAX_STEPS_PER_CALL;
        while fuel > 0
            invariant
                user.wf(),
                user.id_spec() == old(user).id_spec(),
                old(user).stream_spec() is Some ==> user.stream_spec() == old(
                    user,
                ).stream_spec(),
                forall|k: Seq<u8>| old(user).has_snapshot(k) ==> user.has_snapshot(k),
                old(user).stream_spec() is None ==> *user == *old(user) && *self == *old(
                    self,
                ),
                staged_head_accepted(*old(self), *old(user)) ==> fuel == MAX_STEPS_PER_CALL
                    && *user == *old(user) && *self == *old(self),
            decreases fuel,
        {
            fuel = fuel - 1;
            if user.stream_address().is_none() {
                return None;
            }
            if let Some(entry) = self.stage.pop_front() {
                let (rel, blob) = entry;
                let base = match user.stream_address() {
                    Some(a) => AppAddr::from_bytes(vec_dup(a.base().as_bytes())),
                    None => {
                        return None;
                    },
                };
                if rel.as_bytes().len() != 12 || base.as_bytes().len() != 32 {
                    continue ;
                }
                let addr = Address::new(base, MsgId::from_bytes(vec_dup(rel.as_bytes())));
                match user.handle_message(addr, blob) {
                    Ok(m) => {
                        if m.is_orphan() {
                            // The parent may still be pending on the
                            // transport: keep the blob for a later round.
                            let Message { address, header, content } = m;
                            if let MessageContent::Orphan(o) = content {
                                if let Some(l) = &header.linked_msg_address {
                                    self.msg_queue.push(
                                        l.as_bytes(),
                                        MsgId::from_bytes(vec_dup(address.relative().as_bytes())),
                                        o.message,
                                    );
                                }
                            }
                        } else {
                            // Stage any children that were waiting for this
                            // message; yield it only if it is an
                            // application-visible kind.
                            match self.msg_queue.remove(m.address().relative().as_bytes()) {
                                Some(mut children) => {
                                    let ghost qv = msg_queue_view(self.msg_queue);
                                    while children.len() > 0
                                        invariant
                                            msg_queue_view(self.msg_queue) == qv,
                                        decreases children@.len(),
                                    {
                                        match children.pop_front() {
                                            Some(c) => {
                                                self.stage.push_back(c);
                                            },
                                            None => (),
                                        }
                                    }
                                },
                                None => (),
                            }
                            if m.header.frame_type == FRAME_KEYLOAD || m.header.frame_type
                                == FRAME_SIGNED_PACKET || m.header.frame_type
                                == FRAME_TAGGED_PACKET {
                                return Some(Ok(m));
                            }
                        }
                    },
                    Err(_e) => {
                        // Handling failures (bad signature, undecryptable
                        // keyload) are a normal path: skip the blob.
                    },
                }
            } else {
                let next_probe = match self.ids_stack.pop() {
                    Some(x) => Some(x),
                    None => {
                        // Start a new probe round over all known cursors.
                        self.successful_round = false;
                        let all = user.cursors();
                        if all.len() == 0 {
                            return None;
                        }
                        self.ids_stack = all;
                        self.ids_stack.pop()
                    },
                };
                let (publisher, topic, cursor) = match next_probe {
                    Some(x) => x,
                    None => {
                        return None;
                    },
                };
                let base = match user.stream_address() {
                    Some(a) => AppAddr::from_bytes(vec_dup(a.base().as_bytes())),
                    None => {
                        return None;
                    },
                };
                if base.as_bytes().len() != 32 {
                    return None;
                }
                let rel = MsgId::gen(&base, &publisher, &topic, cursor);
                let staged_rel = MsgId::from_bytes(vec_dup(rel.as_bytes()));
                let addr = Address::new(base, rel);
                match user.transport_recv(addr) {
                    Ok(msg) => {
                        self.stage.push_back((staged_rel, msg));
                        self.successful_round = true;
                    },
                    Err(_e) => {
                        // Not found or a transport failure: treated as
                        // missing for now. A fully unsuccessful round ends
                        // the stream for the time being.
                        if self.ids_stack.len() == 0 && !self.successful_round {
                            return None;
                        }
                    },
                }
            }
        }
        None
    }

    /// A derived reader that skips messages while `predicate` holds, then
    /// yields only the linear branch descending from the first accepted
    /// message.
    pub fn filter_branch<P: Fn(&Message) -> bool>(self, predicate: P) -> (r: BranchFiltered<P>)
        ensures
            r.skipping,
            r.inner == self,
            r.branch_last is None,
    {
        BranchFiltered { inner: self, predicate, branch_last: None, skipping: true }
    }
}

/// A branch-filtered reader: see [`Messages::filter_branch`].
pub struct BranchFiltered<P> {
    /// The underlying reader.
    pub inner: Messages,
    /// Skip-while predicate; also selects the branch's first message.
    pub predicate: P,
    /// The address of the last yielded message of the branch.
    pub branch_last: Option<MsgId>,
    /// Whether the reader is still in its skip-while phase.
    pub skipping: bool,
}

impl<P: Fn(&Message) -> bool> BranchFiltered<P> {
    /// The next message of the selected branch.
    ///
    /// While the skip phase lasts, messages the predicate accepts are
    /// dropped; the first message it rejects opens the branch. From then on
    /// a message is yielded exactly when its linked address equals the
    /// address of the last yielded message, which it then replaces.
    pub fn next<T: Transport>(&mut self, user: &mut User<T>) -> (r: Option<
        Result<Message, Error>,
    >)
        requires
            old(user).wf(),
            forall|m: Message| #[trigger] call_requires(old(self).predicate, (&m,)),
        ensures
            final(user).wf(),
            final(self).predicate == old(self).predicate,
            r matches Some(res) ==> (res matches Ok(m) ==> m.header.linked_msg_address is Some
                && (final(self).branch_last matches Some(b) && b@ == m.address@.1)
                && !final(self).skipping),
            r matches Some(res) ==> (res matches Ok(m) ==> (!old(self).skipping ==> (old(
                self,
            ).branch_last matches Some(prev) ==> (m.header.linked_msg_address matches Some(l)
                && l@ == prev@)))),
            r matches Some(res) ==> (res matches Ok(m) ==> (old(self).skipping ==> exists|
                prior: Message,
            | call_ensures(old(self).predicate, (&prior,), false))),
    {
        let mut fuel: usize = MAX_STEPS_PER_CALL;
        while fuel > 0
            invariant
                user.wf(),
                forall|m: Message| #[trigger] call_requires(self.predicate, (&m,)),
                self.predicate == old(self).predicate,
                self.skipping ==> old(self).skipping,
                !self.skipping && old(self).skipping ==> exists|prior: Message|
                    call_ensures(self.predicate, (&prior,), false),
                !old(self).skipping ==> (old(self).branch_last matches Some(prev) ==> (
                !self.skipping && (self.branch_last matches Some(b) && b@ == prev@))),
            decreases fuel,
        {
            fuel = fuel - 1;
            let m = match self.inner.next(user) {
                Some(Ok(m)) => m,
                Some(Err(e)) => {
                    return Some(Err(e));
                },
                None => {
                    return None;
                },
            };
            if self.skipping {
                if (self.predicate)(&m) {
                    continue ;
                }
                self.skipping = false;
            }
            let linked = match &m.header.linked_msg_address {
                Some(l) => MsgId::from_bytes(vec_dup(l.as_bytes())),
                None => {
                    continue ;
                },
            };
            let last = match &self.branch_last {
                Some(b) => MsgId::from_bytes(vec_dup(b.as_bytes())),
                None => {
                    let l2 = MsgId::from_bytes(vec_dup(linked.as_bytes()));
                    self.branch_last = Some(l2);
                    MsgId::from_bytes(vec_dup(linked.as_bytes()))
                },
            };
            if linked.equals(&last) {
                self.branch_last = Some(
                    MsgId::from_bytes(vec_dup(m.address().relative().as_bytes())),
                );
                return Some(Ok(m));
            }
        }
        None
    }
}

} // verus!
