//! An in-memory transport for tests and simulations: blobs filed by their
//! 32-byte message index.

use vstd::prelude::*;
use crate::address::{msg_index_of, Address};
use crate::error::Error;
use crate::message::TransportMessage;
use crate::transport::{MessageIndex, Transport};

verus! {

/// The accumulated map view of a list of `(index, blob)` pairs.
pub open spec fn entries_map(s: Seq<(Vec<u8>, TransportMessage)>) -> Map<Seq<u8>, Seq<Seq<u8>>>
    decreases s.len(),
{
    if s.len() == 0 {
        Map::empty()
    } else {
        let m = entries_map(s.drop_last());
        let k = s.last().0@;
        let before = if m.contains_key(k) {
            m[k]
        } else {
            Seq::empty()
        };
        m.insert(k, before.push(s.last().1@))
    }
}

/// An in-memory bucket of messages, one entry per stored blob.
pub struct Client {
    entries: Vec<(Vec<u8>, TransportMessage)>,
}

impl Client {
    pub fn new() -> (r: Client)
        ensures
            r.inbox() == Map::<Seq<u8>, Seq<Seq<u8>>>::empty(),
    {
        let r = Client { entries: Vec::new() };
        proof {
            assert(r.entries@.len() == 0);
        }
        r
    }
}

impl Transport for Client {
    closed spec fn inbox(&self) -> Map<Seq<u8>, Seq<Seq<u8>>> {
        entries_map(self.entries@)
    }

    fn send_message(&mut self, address: Address, msg: TransportMessage) -> (r: Result<
        TransportMessage,
        Error,
    >) {
        let idx = address.to_msg_index();
        let echo = msg.dup();
        self.entries.push((idx, msg));
        proof {
            assert(self.entries@.drop_last() =~= old(self).entries@);
        }
        Ok(echo)
    }

    fn recv_messages(&mut self, address: Address) -> (r: Result<Vec<TransportMessage>, Error>) {
        let idx = address.to_msg_index();
        let mut found: Vec<TransportMessage> = Vec::new();
        let mut i: usize = 0;
        let ghost target = msg_index_of(address@.0, address@.1);
        while i < self.entries.len()
            invariant
                idx@ == target,
                i <= self.entries@.len(),
                found@.map_values(|m: TransportMessage| m@) == ({
                    let m = entries_map(self.entries@.take(i as int));
                    if m.contains_key(target) {
                        m[target]
                    } else {
                        Seq::<Seq<u8>>::empty()
                    }
                }),
            decreases self.entries@.len() - i,
        {
            if crate::address::bytes_eq(&self.entries[i].0, &idx) {
                found.push(self.entries[i].1.dup());
            }
            i = i + 1;
            proof {
                assert(self.entries@.take(i as int).drop_last() =~= self.entries@.take(
                    i as int - 1,
                ));
                assert(found@.map_values(|m: TransportMessage| m@) =~= ({
                    let m = entries_map(self.entries@.take(i as int));
                    if m.contains_key(target) {
                        m[target]
                    } else {
                        Seq::<Seq<u8>>::empty()
                    }
                }));
            }
        }
        proof {
            assert(self.entries@.take(self.entries@.len() as int) =~= self.entries@);
        }
        if found.len() == 0 {
            Err(Error::MessageMissing(address, "transport"))
        } else {
            Ok(found)
        }
    }
}

impl MessageIndex for Client {
    fn get_messages_by_msg_index(&self, msg_index: &Vec<u8>) -> (r: Result<
        Vec<TransportMessage>,
        Error,
    >) {
        let mut found: Vec<TransportMessage> = Vec::new();
        let mut i: usize = 0;
        while i < self.entries.len()
            invariant
                i <= self.entries@.len(),
            decreases self.entries@.len() - i,
        {
            if crate::address::bytes_eq(&self.entries[i].0, msg_index) {
                found.push(self.entries[i].1.dup());
            }
            i = i + 1;
        }
        Ok(found)
    }

    fn get_tag_value(&self, msg_index: &Vec<u8>) -> (r: Result<Vec<u8>, Error>) {
        Ok(crate::id::vec_dup(msg_index))
    }
}

} // verus!
