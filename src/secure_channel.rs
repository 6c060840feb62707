//! Secure channel status reports, as sent to close a session.
use vstd::prelude::*;
use crate::packet::{Packet, OPCODE_STATUS_REPORT, PROTO_ID_SECURE_CHANNEL};

verus! {

/// Protocol-specific status codes of the secure channel.
#[derive(Debug, Clone, Copy, PartialEq, Eq, Structural)]
pub enum SCStatusCodes {
    SessionEstablishmentSuccess,
    NoSharedTrustRoots,
    InvalidParameter,
    CloseSession,
    Busy,
    SessionNotFound,
}

/// The wire value of a secure channel status code.
pub open spec fn sc_code(c: SCStatusCodes) -> u16 {
    match c {
        SCStatusCodes::SessionEstablishmentSuccess => 0,
        SCStatusCodes::NoSharedTrustRoots => 1,
        SCStatusCodes::InvalidParameter => 2,
        SCStatusCodes::CloseSession => 3,
        SCStatusCodes::Busy => 4,
        SCStatusCodes::SessionNotFound => 5,
    }
}

/// The general status code that accompanies a secure channel status code:
/// success, busy, or failure.
pub open spec fn general_code(c: SCStatusCodes) -> u16 {
    match c {
        SCStatusCodes::SessionEstablishmentSuccess | SCStatusCodes::CloseSession => 0,
        SCStatusCodes::Busy => 8,
        _ => 1,
    }
}

/// A status report body: general code (2 bytes), protocol id (4 bytes) and
/// protocol code (2 bytes), all little-endian, then the optional data.
pub open spec fn status_report_bytes(c: SCStatusCodes, data: Seq<u8>) -> Seq<u8> {
    seq![
        (general_code(c) % 256) as u8,
        (general_code(c) / 256) as u8,
        0u8,
        0u8,
        0u8,
        0u8,
        (sc_code(c) % 256) as u8,
        (sc_code(c) / 256) as u8,
    ] + data
}

impl SCStatusCodes {
    pub fn code(&self) -> (r: u16)
        ensures
            r == sc_code(*self),
    {
        match self {
            SCStatusCodes::SessionEstablishmentSuccess => 0,
            SCStatusCodes::NoSharedTrustRoots => 1,
            SCStatusCodes::InvalidParameter => 2,
            SCStatusCodes::CloseSession => 3,
            SCStatusCodes::Busy => 4,
            SCStatusCodes::SessionNotFound => 5,
        }
    }

    pub fn general_code(&self) -> (r: u16)
        ensures
            r == general_code(*self),
    {
        match self {
            SCStatusCodes::SessionEstablishmentSuccess | SCStatusCodes::CloseSession => 0,
            SCStatusCodes::Busy => 8,
            _ => 1,
        }
    }
}

/// Turns `proto_tx` into a secure channel status report carrying `status_code`
/// and, if given, `proto_data`.
pub fn create_sc_status_report(proto_tx: &mut Packet, status_code: SCStatusCodes, proto_data: Option<&Vec<u8>>)
    ensures
        final(proto_tx).proto.proto_id == PROTO_ID_SECURE_CHANNEL,
        final(proto_tx).proto.proto_opcode == OPCODE_STATUS_REPORT,
        final(proto_tx).payload@ == status_report_bytes(
            status_code,
            match proto_data {
                Some(d) => d@,
                None => Seq::empty(),
            },
        ),
        final(proto_tx).plain == old(proto_tx).plain,
        final(proto_tx).proto.exch_id == old(proto_tx).proto.exch_id,
        final(proto_tx).proto.initiator == old(proto_tx).proto.initiator,
        final(proto_tx).proto.reliable == old(proto_tx).proto.reliable,
        final(proto_tx).proto.ack_msg_ctr == old(proto_tx).proto.ack_msg_ctr,
{
    proto_tx.proto.proto_id = PROTO_ID_SECURE_CHANNEL;
    proto_tx.proto.proto_opcode = OPCODE_STATUS_REPORT;
    let g = status_code.general_code();
    let c = status_code.code();
    let mut b: Vec<u8> = Vec::new();
    b.push((g % 256) as u8);
    b.push((g / 256) as u8);
    b.push(0);
    b.push(0);
    b.push(0);
    b.push(0);
    b.push((c % 256) as u8);
    b.push((c / 256) as u8);
    let ghost head = b@;
    if let Some(d) = proto_data {
        let mut i: usize = 0;
        while i < d.len()
            invariant
                i <= d@.len(),
                b@ == head + d@.subrange(0, i as int),
            decreases d@.len() - i,
        {
            b.push(d[i]);
            i = i + 1;
            assert(b@ =~= head + d@.subrange(0, i as int));
        }
        assert(d@.subrange(0, d@.len() as int) =~= d@);
    } else {
        assert(b@ =~= head + Seq::<u8>::empty());
    }
    assert(b@ =~= status_report_bytes(
        status_code,
        match proto_data {
            Some(d) => d@,
            None => Seq::empty(),
        },
    ));
    proto_tx.payload = b;
}

} // verus!
