//! Exchanges: logical conversations multiplexed over a session, each with a
//! lifecycle, a reliability sub-state and a payload slot for upper layers.
use vstd::prelude::*;
use crate::error::Error;
use crate::mrp::ReliableMessage;
use crate::packet::Packet;
use crate::session::{next_ctr, Session, SessionMode};

verus! {

#[derive(Debug, PartialEq, Eq, Copy, Clone, Structural)]
pub enum Role {
    Initiator,
    Responder,
}

impl Default for Role {
    fn default() -> (r: Self)
        ensures
            r == Role::Initiator,
    {
        Role::Initiator
    }
}

/// Lifecycle of an exchange.
#[derive(Debug, PartialEq, Eq, Copy, Clone, Structural)]
pub enum State {
    /// Open and active.
    Open,
    /// Closed, but retransmissions or acknowledgements may still be pending.
    Close,
    /// Terminated: no more traffic.
    Terminate,
}

impl Default for State {
    fn default() -> (r: Self)
        ensures
            r == State::Open,
    {
        State::Open
    }
}

/// A point in time, as seconds and nanoseconds since the UNIX epoch.
#[derive(Debug, PartialEq, Eq, Copy, Clone, Structural)]
pub struct SysTime {
    pub secs: u64,
    pub nanos: u32,
}

/// State that an upper layer parks on an exchange: a blob tagged with the
/// caller's choice of type.
#[derive(Debug)]
pub struct OpaqueData {
    pub type_tag: u32,
    pub bytes: Vec<u8>,
}

/// The payload slot of an exchange: at most one payload at a time.
#[derive(Debug)]
pub enum DataOption {
    Boxed(OpaqueData),
    Time(SysTime),
    Empty,
}

impl Default for DataOption {
    fn default() -> (r: Self)
        ensures
            r is Empty,
    {
        DataOption::Empty
    }
}

#[derive(Debug)]
pub struct Exchange {
    pub id: u16,
    pub sess_idx: usize,
    pub role: Role,
    pub state: State,
    pub mrp: ReliableMessage,
    pub data: DataOption,
}

/// The role of the local side, given whether the sender of a message is the initiator.
pub open spec fn role_of(is_initiator: bool) -> Role {
    if is_initiator { Role::Initiator } else { Role::Responder }
}

/// The local role that answers a message whose sender has `is_initiator`.
pub open spec fn complementary_role_of(is_initiator: bool) -> Role {
    if is_initiator { Role::Responder } else { Role::Initiator }
}

pub fn get_role(is_initiator: bool) -> (r: Role)
    ensures
        r == role_of(is_initiator),
{
    if is_initiator {
        Role::Initiator
    } else {
        Role::Responder
    }
}

pub fn get_complementary_role(is_initiator: bool) -> (r: Role)
    ensures
        r == complementary_role_of(is_initiator),
{
    if is_initiator {
        Role::Responder
    } else {
        Role::Initiator
    }
}

impl Exchange {
    /// Eligible for removal: terminated, or closed with nothing pending.
    pub open spec fn purgeable(&self) -> bool {
        self.state == State::Terminate || (self.state == State::Close && self.mrp.empty())
    }

    /// A new open exchange with empty reliability state and no payload.
    pub open spec fn fresh(&self, id: u16, sess_idx: usize, role: Role) -> bool {
        &&& self.id == id
        &&& self.sess_idx == sess_idx
        &&& self.role == role
        &&& self.state == State::Open
        &&& self.mrp.empty()
        &&& self.data is Empty
    }

    pub fn new(id: u16, sess_idx: usize, role: Role) -> (e: Exchange)
        ensures
            e.fresh(id, sess_idx, role),
    {
        Exchange {
            id,
            sess_idx,
            role,
            state: State::Open,
            mrp: ReliableMessage::new(),
            data: DataOption::Empty,
        }
    }

    pub fn terminate(&mut self)
        ensures
            final(self).state == State::Terminate,
            final(self).data is Empty,
            final(self).id == old(self).id,
            final(self).sess_idx == old(self).sess_idx,
            final(self).role == old(self).role,
            final(self).mrp == old(self).mrp,
    {
        self.data = DataOption::Empty;
        self.state = State::Terminate;
    }

    pub fn close(&mut self)
        ensures
            final(self).state == State::Close,
            final(self).data is Empty,
            final(self).id == old(self).id,
            final(self).sess_idx == old(self).sess_idx,
            final(self).role == old(self).role,
            final(self).mrp == old(self).mrp,
    {
        self.data = DataOption::Empty;
        self.state = State::Close;
    }

    pub fn is_state_open(&self) -> (r: bool)
        ensures
            r == (self.state == State::Open),
    {
        self.state == State::Open
    }

    pub fn is_purgeable(&self) -> (r: bool)
        ensures
            r == self.purgeable(),
    {
        self.state == State::Terminate || (self.state == State::Close && self.mrp.is_empty())
    }

    pub fn get_id(&self) -> (r: u16)
        ensures
            r == self.id,
    {
        self.id
    }

    pub fn get_role(&self) -> (r: Role)
        ensures
            r == self.role,
    {
        self.role
    }

    pub fn is_data_none(&self) -> (r: bool)
        ensures
            r == (self.data is Empty),
    {
        matches!(self.data, DataOption::Empty)
    }

    pub fn set_data_boxed(&mut self, data: OpaqueData)
        ensures
            final(self).data == DataOption::Boxed(data),
            final(self).id == old(self).id,
            final(self).sess_idx == old(self).sess_idx,
            final(self).role == old(self).role,
            final(self).state == old(self).state,
            final(self).mrp == old(self).mrp,
    {
        self.data = DataOption::Boxed(data);
    }

    pub fn clear_data_boxed(&mut self)
        ensures
            final(self).data is Empty,
            final(self).id == old(self).id,
            final(self).sess_idx == old(self).sess_idx,
            final(self).role == old(self).role,
            final(self).state == old(self).state,
            final(self).mrp == old(self).mrp,
    {
        self.data = DataOption::Empty;
    }

    /// The parked blob, when the slot holds one tagged `type_tag`, borrowed
    /// for update.
    pub fn get_data_boxed(&mut self, type_tag: u32) -> (r: Option<&mut Vec<u8>>)
        ensures
            r is Some <==> (old(self).data matches DataOption::Boxed(d) && d.type_tag == type_tag),
            r matches Some(b) ==> (old(self).data matches DataOption::Boxed(d) && *b == d.bytes),
            r matches Some(b) ==> final(self).data == DataOption::Boxed(OpaqueData { type_tag, bytes: *final(b) }),
            r is None ==> final(self).data == old(self).data,
            final(self).id == old(self).id,
            final(self).sess_idx == old(self).sess_idx,
            final(self).role == old(self).role,
            final(self).state == old(self).state,
            final(self).mrp == old(self).mrp,
    {
        match &mut self.data {
            DataOption::Boxed(d) => {
                if d.type_tag == type_tag {
                    Some(&mut d.bytes)
                } else {
                    None
                }
            },
            _ => None,
        }
    }

    /// Moves the parked blob out when it is tagged `type_tag`. A blob of another
    /// tag is dropped; a timestamp stays in place.
    pub fn take_data_boxed(&mut self, type_tag: u32) -> (r: Option<Vec<u8>>)
        ensures
            old(self).data matches DataOption::Boxed(d) ==> {
                &&& final(self).data is Empty
                &&& r == if d.type_tag == type_tag { Some(d.bytes) } else { None::<Vec<u8>> }
            },
            !(old(self).data is Boxed) ==> r is None && final(self).data == old(self).data,
            final(self).id == old(self).id,
            final(self).sess_idx == old(self).sess_idx,
            final(self).role == old(self).role,
            final(self).state == old(self).state,
            final(self).mrp == old(self).mrp,
    {
        let mut old_data = DataOption::Empty;
        std::mem::swap(&mut self.data, &mut old_data);
        match old_data {
            DataOption::Boxed(d) => {
                if d.type_tag == type_tag {
                    Some(d.bytes)
                } else {
                    None
                }
            },
            other => {
                self.data = other;
                None
            },
        }
    }

    /// Stores an expiry timestamp; `None` leaves the slot as it is.
    pub fn set_data_time(&mut self, expiry_ts: Option<SysTime>)
        ensures
            expiry_ts matches Some(t) ==> final(self).data == DataOption::Time(t),
            expiry_ts is None ==> final(self).data == old(self).data,
            final(self).id == old(self).id,
            final(self).sess_idx == old(self).sess_idx,
            final(self).role == old(self).role,
            final(self).state == old(self).state,
            final(self).mrp == old(self).mrp,
    {
        if let Some(t) = expiry_ts {
            self.data = DataOption::Time(t);
        }
    }

    pub fn get_data_time(&self) -> (r: Option<SysTime>)
        ensures
            r == match self.data {
                DataOption::Time(t) => Some(t),
                _ => None::<SysTime>,
            },
    {
        match self.data {
            DataOption::Time(t) => Some(t),
            _ => None,
        }
    }

    /// Prepares `proto_tx` for transmission on this exchange and session and
    /// returns it; a terminated exchange swallows it and returns `None`.
    pub fn send(&mut self, proto_tx: Packet, session: &mut Session) -> (r: Result<Option<Packet>, Error>)
        ensures
            old(self).state == State::Terminate ==> r == Ok::<Option<Packet>, Error>(None)
                && *final(self) == *old(self) && *final(session) == *old(session),
            old(self).state != State::Terminate ==> {
                &&& *final(session) == (Session { tx_ctr: next_ctr(old(session).tx_ctr), ..*old(session) })
                &&& final(self).id == old(self).id
                &&& final(self).sess_idx == old(self).sess_idx
                &&& final(self).role == old(self).role
                &&& final(self).state == old(self).state
                &&& final(self).data == old(self).data
                &&& (proto_tx.proto.reliable && old(self).mrp.retrans is Some) ==> r == Err::<Option<Packet>, Error>(Error::NoSpace)
                    && final(self).mrp == old(self).mrp
                &&& !(proto_tx.proto.reliable && old(self).mrp.retrans is Some) ==> (r matches Ok(Some(p)) && {
                    &&& p.proto.exch_id == old(self).id
                    &&& p.proto.initiator == (proto_tx.proto.initiator || old(self).role == Role::Initiator)
                    &&& p.proto.reliable == proto_tx.proto.reliable
                    &&& p.proto.proto_id == proto_tx.proto.proto_id
                    &&& p.proto.proto_opcode == proto_tx.proto.proto_opcode
                    &&& p.proto.ack_msg_ctr == if old(self).mrp.ack is Some { old(self).mrp.ack } else { proto_tx.proto.ack_msg_ctr }
                    &&& p.plain.sess_id == old(session).peer_sess_id
                    &&& p.plain.ctr == old(session).tx_ctr
                    &&& p.plain.is_encrypted == (old(session).mode != SessionMode::PlainText)
                    &&& p.payload == proto_tx.payload
                    &&& final(self).mrp.ack is None
                    &&& final(self).mrp.retrans == if proto_tx.proto.reliable { Some(old(session).tx_ctr) } else { old(self).mrp.retrans }
                })
            },
    {
        if self.state == State::Terminate {
            return Ok(None);
        }
        let mut proto_tx = proto_tx;
        proto_tx.proto.exch_id = self.id;
        if self.role == Role::Initiator {
            proto_tx.proto.set_initiator();
        }
        session.pre_send(&mut proto_tx);
        match self.mrp.pre_send(&mut proto_tx) {
            Ok(()) => Ok(Some(proto_tx)),
            Err(e) => Err(e),
        }
    }
}

} // verus!
