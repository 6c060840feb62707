//! Reliability sub-state of an exchange: the one outbound message awaiting an
//! acknowledgement and the one inbound message whose acknowledgement is owed.
use vstd::prelude::*;
use crate::error::Error;
use crate::packet::Packet;

verus! {

#[derive(Debug)]
pub struct ReliableMessage {
    /// Counter of our reliable message that the peer has not acknowledged yet.
    pub retrans: Option<u32>,
    /// Counter of the peer's reliable message that we still have to acknowledge.
    pub ack: Option<u32>,
}

/// The reliability state after accounting for inbound message `rx`.
pub open spec fn mrp_after_recv(m: ReliableMessage, rx: Packet) -> ReliableMessage {
    ReliableMessage {
        retrans: if m.retrans is Some && rx.proto.ack_msg_ctr == m.retrans { None } else { m.retrans },
        ack: if rx.proto.reliable { Some(rx.plain.ctr) } else { m.ack },
    }
}

impl ReliableMessage {
    pub fn new() -> (r: Self)
        ensures
            r.retrans is None,
            r.ack is None,
    {
        ReliableMessage { retrans: None, ack: None }
    }

    /// Nothing is waiting in either direction.
    pub open spec fn empty(&self) -> bool {
        self.retrans is None && self.ack is None
    }

    pub fn is_empty(&self) -> (r: bool)
        ensures
            r == self.empty(),
    {
        self.retrans.is_none() && self.ack.is_none()
    }

    /// An acknowledgement is owed to the peer.
    pub fn is_ack_ready(&self) -> (r: bool)
        ensures
            r == (self.ack is Some),
    {
        self.ack.is_some()
    }

    /// Prepares an outbound message: piggybacks the owed acknowledgement and, for
    /// a reliable message, records it as awaiting acknowledgement. Only one
    /// reliable message may be outstanding at a time.
    pub fn pre_send(&mut self, tx: &mut Packet) -> (r: Result<(), Error>)
        ensures
            old(tx).proto.reliable && old(self).retrans is Some ==> {
                &&& r == Err::<(), Error>(Error::NoSpace)
                &&& *final(self) == *old(self)
                &&& *final(tx) == *old(tx)
            },
            !(old(tx).proto.reliable && old(self).retrans is Some) ==> {
                &&& r is Ok
                &&& final(self).ack is None
                &&& final(self).retrans == if old(tx).proto.reliable {
                    Some(old(tx).plain.ctr)
                } else {
                    old(self).retrans
                }
                &&& final(tx).proto.ack_msg_ctr == if old(self).ack is Some {
                    old(self).ack
                } else {
                    old(tx).proto.ack_msg_ctr
                }
                &&& final(tx).plain == old(tx).plain
                &&& final(tx).payload == old(tx).payload
                &&& final(tx).proto.exch_id == old(tx).proto.exch_id
                &&& final(tx).proto.initiator == old(tx).proto.initiator
                &&& final(tx).proto.reliable == old(tx).proto.reliable
                &&& final(tx).proto.proto_id == old(tx).proto.proto_id
                &&& final(tx).proto.proto_opcode == old(tx).proto.proto_opcode
            },
    {
        if tx.proto.reliable && self.retrans.is_some() {
            return Err(Error::NoSpace);
        }
        if let Some(c) = self.ack {
            tx.proto.ack_msg_ctr = Some(c);
            self.ack = None;
        }
        if tx.proto.reliable {
            self.retrans = Some(tx.plain.ctr);
        }
        Ok(())
    }

    /// Accounts for an inbound message: an acknowledgement of our outstanding
    /// message clears it, and a reliable message makes an acknowledgement owed.
    pub fn recv(&mut self, rx: &Packet)
        ensures
            *final(self) == mrp_after_recv(*old(self), *rx),
    {
        if self.retrans.is_some() && rx.proto.ack_msg_ctr == self.retrans {
            self.retrans = None;
        }
        if rx.proto.reliable {
            self.ack = Some(rx.plain.ctr);
        }
    }
}

} // verus!
