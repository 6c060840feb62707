//! The header fields of a Matter message that the transport layer reads and writes.
use vstd::prelude::*;

verus! {

/// Protocol id of the secure channel protocol.
pub const PROTO_ID_SECURE_CHANNEL: u16 = 0;

/// Opcode of a secure channel status report.
pub const OPCODE_STATUS_REPORT: u8 = 0x40;

/// Session-level header: which session a message belongs to and its counter.
#[derive(Debug, Clone, Copy, PartialEq, Eq, Structural)]
pub struct PlainHdr {
    pub sess_id: u16,
    pub ctr: u32,
    pub is_encrypted: bool,
}

/// Exchange-level header.
#[derive(Debug, Clone, Copy, PartialEq, Eq, Structural)]
pub struct ProtoHdr {
    pub exch_id: u16,
    pub initiator: bool,
    pub reliable: bool,
    pub ack_msg_ctr: Option<u32>,
    pub proto_id: u16,
    pub proto_opcode: u8,
}

/// A message: its two headers and its application payload.
#[derive(Debug)]
pub struct Packet {
    pub plain: PlainHdr,
    pub proto: ProtoHdr,
    pub payload: Vec<u8>,
}

impl ProtoHdr {
    /// Whether the sender of the message initiated the exchange.
    pub fn is_initiator(&self) -> (r: bool)
        ensures
            r == self.initiator,
    {
        self.initiator
    }

    /// Marks the message as sent by the exchange's initiator.
    pub fn set_initiator(&mut self)
        ensures
            *final(self) == (ProtoHdr { initiator: true, ..*old(self) }),
    {
        self.initiator = true;
    }

    /// Whether the sender asks for an acknowledgement.
    pub fn is_reliable(&self) -> (r: bool)
        ensures
            r == self.reliable,
    {
        self.reliable
    }
}

/// A fresh outbound packet: all header fields zero, no payload.
pub open spec fn empty_tx() -> (PlainHdr, ProtoHdr) {
    (
        PlainHdr { sess_id: 0, ctr: 0, is_encrypted: false },
        ProtoHdr {
            exch_id: 0,
            initiator: false,
            reliable: false,
            ack_msg_ctr: None,
            proto_id: 0,
            proto_opcode: 0,
        },
    )
}

impl Packet {
    /// A fresh outbound packet.
    pub fn new_tx() -> (p: Packet)
        ensures
            (p.plain, p.proto) == empty_tx(),
            p.payload@.len() == 0,
    {
        Packet {
            plain: PlainHdr { sess_id: 0, ctr: 0, is_encrypted: false },
            proto: ProtoHdr {
                exch_id: 0,
                initiator: false,
                reliable: false,
                ack_msg_ctr: None,
                proto_id: 0,
                proto_opcode: 0,
            },
            payload: Vec::new(),
        }
    }

    pub fn get_proto_id(&self) -> (r: u16)
        ensures
            r == self.proto.proto_id,
    {
        self.proto.proto_id
    }

    pub fn get_proto_opcode(&self) -> (r: u8)
        ensures
            r == self.proto.proto_opcode,
    {
        self.proto.proto_opcode
    }
}

} // verus!
