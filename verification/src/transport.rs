//! Network transport abstraction.
//!
//! A transport stores opaque blobs under the 32-byte message index derived
//! from an [`Address`]. The model of a transport is the map from index
//! bytes to the list of blobs stored under it.

pub mod bucket;

use vstd::prelude::*;
use crate::address::{msg_index_of, Address};
use crate::error::Error;
use crate::message::TransportMessage;

verus! {

/// Network transport abstraction, parametrized over the message address.
/// An address identifies and locates one message, as a URL does for HTTP.
pub trait Transport {
    /// The blobs the transport holds, by message index. Transports that
    /// cannot be modelled override this; the default is an empty medium.
    open spec fn inbox(&self) -> Map<Seq<u8>, Seq<Seq<u8>>> {
        Map::empty()
    }

    /// Send a message: on success the blob is appended under the address's
    /// message index and echoed back.
    fn send_message(&mut self, address: Address, msg: TransportMessage) -> (r: Result<
        TransportMessage,
        Error,
    >)
        requires
            address.wf(),
        ensures
            r matches Ok(echo) ==> ({
                let idx = msg_index_of(address@.0, address@.1);
                let before = if old(self).inbox().contains_key(idx) {
                    old(self).inbox()[idx]
                } else {
                    Seq::empty()
                };
                final(self).inbox() == old(self).inbox().insert(idx, before.push(msg@))
                    && echo@ == msg@
            }),
            r is Err ==> final(self).inbox() == old(self).inbox(),
    ;

    /// Receive all messages stored under an address.
    fn recv_messages(&mut self, address: Address) -> (r: Result<Vec<TransportMessage>, Error>)
        requires
            address.wf(),
        ensures
            final(self).inbox() == old(self).inbox(),
            r matches Ok(v) ==> ({
                let idx = msg_index_of(address@.0, address@.1);
                old(self).inbox().contains_key(idx) && v@.map_values(
                    |m: TransportMessage| m@,
                ) == old(self).inbox()[idx] && v@.len() > 0
            }),
            r is Err ==> ({
                let idx = msg_index_of(address@.0, address@.1);
                !old(self).inbox().contains_key(idx) || old(self).inbox()[idx].len() == 0
            }),
    ;

    /// Receive the single message stored under an address: an error both
    /// when nothing is there and when the address is ambiguous.
    fn recv_message(&mut self, address: Address) -> (r: Result<TransportMessage, Error>)
        requires
            address.wf(),
        ensures
            final(self).inbox() == old(self).inbox(),
            r matches Ok(m) ==> ({
                let idx = msg_index_of(address@.0, address@.1);
                old(self).inbox().contains_key(idx) && old(self).inbox()[idx].len() == 1 && m@
                    == old(self).inbox()[idx][0]
            }),
            r is Err ==> ({
                let idx = msg_index_of(address@.0, address@.1);
                !old(self).inbox().contains_key(idx) || old(self).inbox()[idx].len() != 1
            }),
            ({
                let idx = msg_index_of(address@.0, address@.1);
                old(self).inbox().contains_key(idx) && old(self).inbox()[idx].len() == 1
            }) ==> r is Ok,
            ({
                let idx = msg_index_of(address@.0, address@.1);
                old(self).inbox().contains_key(idx) && old(self).inbox()[idx].len() > 1
            }) ==> (r matches Err(e) && (e matches Error::AddressError(t, a) && t@
                == "More than one found"@ && a@ == address@)),
    {
        let kept = address.dup();
        let mut msgs = self.recv_messages(address)?;
        if msgs.len() == 1 {
            match msgs.pop() {
                Some(msg) => Ok(msg),
                None => Err(Error::AddressError("not found in transport", kept)),
            }
        } else if msgs.len() == 0 {
            Err(Error::AddressError("not found in transport", kept))
        } else {
            Err(Error::AddressError("More than one found", kept))
        }
    }
}

/// Interface for message indexing services. Transports need to index every
/// blob by the value of [`Address::to_msg_index`]; media that cannot carry
/// arbitrary tags map that 32-byte index to a medium-specific tag.
pub trait MessageIndex {
    /// All messages filed under the given message index.
    fn get_messages_by_msg_index(&self, msg_index: &Vec<u8>) -> (r: Result<
        Vec<TransportMessage>,
        Error,
    >);

    /// The tag value a transport client files a message under before it is
    /// sent over the medium.
    fn get_tag_value(&self, msg_index: &Vec<u8>) -> (r: Result<Vec<u8>, Error>);
}

} // verus!
