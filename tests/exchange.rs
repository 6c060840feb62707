use matter_transport::error::Error;
use matter_transport::exchange::{
    get_complementary_role, get_role, DataOption, Exchange, OpaqueData, Role, SysTime,
};
use matter_transport::mgr::ExchangeMgr;
use matter_transport::packet::{Packet, OPCODE_STATUS_REPORT, PROTO_ID_SECURE_CHANNEL};
use matter_transport::session::{CloneData, SessionMgr, SessionMode, MAX_SESSIONS};
use matter_transport::table::{ack_contains, ack_new, MAX_EXCHANGES};

#[test]
fn test_purge() {
    let sess_mgr = SessionMgr::new();
    let mut mgr = ExchangeMgr::new(sess_mgr);
    let _ = ExchangeMgr::_get(&mut mgr.exchanges, 1, 2, Role::Responder, true).unwrap();
    let _ = ExchangeMgr::_get(&mut mgr.exchanges, 1, 3, Role::Responder, true).unwrap();

    mgr.purge();
    assert_eq!(
        ExchangeMgr::_get(&mut mgr.exchanges, 1, 2, Role::Responder, false).is_ok(),
        true
    );
    assert_eq!(
        ExchangeMgr::_get(&mut mgr.exchanges, 1, 3, Role::Responder, false).is_ok(),
        true
    );

    // Close e1
    let e1 = ExchangeMgr::_get(&mut mgr.exchanges, 1, 2, Role::Responder, false).unwrap();
    e1.close();
    mgr.purge();
    assert_eq!(
        ExchangeMgr::_get(&mut mgr.exchanges, 1, 2, Role::Responder, false).is_ok(),
        false
    );
    assert_eq!(
        ExchangeMgr::_get(&mut mgr.exchanges, 1, 3, Role::Responder, false).is_ok(),
        true
    );
}

fn get_clone_data(peer_sess_id: u16, local_sess_id: u16) -> CloneData {
    CloneData::new(
        12341234,
        43211234,
        peer_sess_id,
        local_sess_id,
        SessionMode::Pase,
    )
}

fn fill_sessions(mgr: &mut ExchangeMgr, count: usize) {
    let mut local_sess_id = 1;
    let mut peer_sess_id = 100;
    for _ in 1..count {
        let clone_data = get_clone_data(peer_sess_id, local_sess_id);
        match mgr.add_session(&clone_data) {
            Ok(s) => assert_eq!(
                peer_sess_id,
                mgr.get_sess_mgr().get_session_handle(s).get_peer_sess_id()
            ),
            Err(Error::NoSpace) => break,
            _ => {
                panic!("Couldn't, create session");
            }
        }
        local_sess_id += 1;
        peer_sess_id += 1;
    }
}

#[test]
/// We purposefuly overflow the sessions
/// and when the overflow happens, we confirm that
/// - The sessions are evicted in LRU
/// - The exchanges associated with those sessions are evicted too
fn test_sess_evict() {
    let sess_mgr = SessionMgr::new();
    let mut mgr = ExchangeMgr::new(sess_mgr);

    fill_sessions(&mut mgr, MAX_SESSIONS + 1);
    // Sessions are now full from local session id 1 to 16

    // Create exchanges for sessions 2 (i.e. session index 1) and 3 (session index 2)
    //   Exchange IDs are 20 and 30 respectively
    let _ = ExchangeMgr::_get(&mut mgr.exchanges, 1, 20, Role::Responder, true).unwrap();
    let _ = ExchangeMgr::_get(&mut mgr.exchanges, 2, 30, Role::Responder, true).unwrap();

    // Confirm that session ids 1 to MAX_SESSIONS exists
    for i in 1..(MAX_SESSIONS + 1) {
        assert_eq!(mgr.sess_mgr.get_with_id(i as u16).is_none(), false);
    }
    // Confirm that the exchanges are around
    assert_eq!(mgr.get_with_id(20).is_none(), false);
    assert_eq!(mgr.get_with_id(30).is_none(), false);
    let mut old_local_sess_id = 1;
    let mut new_local_sess_id = 100;
    let mut new_peer_sess_id = 200;

    for i in 1..(MAX_SESSIONS + 1) {
        // Now purposefully overflow the sessions by adding another session
        let session = mgr
            .add_session(&get_clone_data(new_peer_sess_id, new_local_sess_id))
            .unwrap();
        assert_eq!(
            mgr.get_sess_mgr().get_session_handle(session).get_peer_sess_id(),
            new_peer_sess_id
        );

        // This should have evicted session with local sess_id
        assert_eq!(mgr.sess_mgr.get_with_id(old_local_sess_id).is_none(), true);

        new_local_sess_id += 1;
        new_peer_sess_id += 1;
        old_local_sess_id += 1;

        match i {
            1 => {
                // Both exchanges should exist
                assert_eq!(mgr.get_with_id(20).is_none(), false);
                assert_eq!(mgr.get_with_id(30).is_none(), false);
            }
            2 => {
                // Exchange 20 would have been evicted
                assert_eq!(mgr.get_with_id(20).is_none(), true);
                assert_eq!(mgr.get_with_id(30).is_none(), false);
            }
            3 => {
                // Exchange 20 and 30 would have been evicted
                assert_eq!(mgr.get_with_id(20).is_none(), true);
                assert_eq!(mgr.get_with_id(30).is_none(), true);
            }
            _ => {}
        }
    }
}

fn inbound(sess_id: u16, ctr: u32, exch_id: u16, initiator: bool, reliable: bool) -> Packet {
    let mut p = Packet::new_tx();
    p.plain.sess_id = sess_id;
    p.plain.ctr = ctr;
    p.plain.is_encrypted = true;
    p.proto.exch_id = exch_id;
    p.proto.initiator = initiator;
    p.proto.reliable = reliable;
    p.payload = vec![1, 2, 3];
    p
}

/// A manager with one PASE session, local id 5 and peer id 50, in slot 0.
fn mgr_with_session() -> ExchangeMgr {
    let mut mgr = ExchangeMgr::new(SessionMgr::new());
    let idx = mgr.add_session(&get_clone_data(50, 5)).unwrap();
    assert_eq!(idx, 0);
    mgr
}

#[test]
fn purge_respects_reliability() {
    let mut mgr = mgr_with_session();
    let _ = ExchangeMgr::_get(&mut mgr.exchanges, 0, 7, Role::Initiator, true).unwrap();
    let mut tx = Packet::new_tx();
    tx.proto.reliable = true;
    assert_eq!(mgr.send(7, tx), Ok(()));
    let q = mgr.take_tx_queue();
    assert_eq!(q.len(), 1);
    let sent_ctr = q[0].plain.ctr;

    mgr.get_with_id(7).unwrap().close();
    mgr.purge();
    // still waiting for the peer's acknowledgement
    assert!(mgr.get_with_id(7).is_some());
    assert!(!mgr.get_with_id(7).unwrap().is_purgeable());

    let mut ack = inbound(5, 900, 7, false, false);
    ack.proto.ack_msg_ctr = Some(sent_ctr);
    mgr.get_with_id(7).unwrap().mrp.recv(&ack);
    assert!(mgr.get_with_id(7).unwrap().mrp.is_empty());
    mgr.purge();
    assert!(mgr.get_with_id(7).is_none());
}

#[test]
fn purge_twice_same_as_once() {
    let mut mgr = ExchangeMgr::new(SessionMgr::new());
    for id in [1u16, 2, 3, 4] {
        let _ = ExchangeMgr::_get(&mut mgr.exchanges, 0, id, Role::Responder, true).unwrap();
    }
    mgr.get_with_id(1).unwrap().terminate();
    mgr.get_with_id(3).unwrap().close();
    mgr.purge();
    let after_one: Vec<bool> = (1..5u16).map(|id| mgr.get_with_id(id).is_some()).collect();
    assert_eq!(after_one, vec![false, true, false, true]);
    mgr.purge();
    let after_two: Vec<bool> = (1..5u16).map(|id| mgr.get_with_id(id).is_some()).collect();
    assert_eq!(after_one, after_two);
}

#[test]
fn create_twice_returns_original() {
    let mut mgr = ExchangeMgr::new(SessionMgr::new());
    let e = ExchangeMgr::_get(&mut mgr.exchanges, 3, 9, Role::Responder, true).unwrap();
    e.set_data_time(Some(SysTime { secs: 77, nanos: 5 }));
    let again = ExchangeMgr::_get(&mut mgr.exchanges, 3, 9, Role::Responder, true).unwrap();
    assert_eq!(again.get_data_time(), Some(SysTime { secs: 77, nanos: 5 }));
    assert_eq!(again.get_id(), 9);
    assert!(matches!(
        ExchangeMgr::_get(&mut mgr.exchanges, 3, 9, Role::Initiator, true),
        Err(Error::NoExchange)
    ));
    assert!(matches!(
        ExchangeMgr::_get(&mut mgr.exchanges, 4, 9, Role::Responder, true),
        Err(Error::NoExchange)
    ));
}

#[test]
fn missing_exchange_without_create_is_no_space() {
    let mut mgr = ExchangeMgr::new(SessionMgr::new());
    assert!(matches!(
        ExchangeMgr::_get(&mut mgr.exchanges, 0, 9, Role::Responder, false),
        Err(Error::NoSpace)
    ));
    assert!(mgr.get_with_id(9).is_none());
}

#[test]
fn full_exchange_table_is_no_space() {
    let mut mgr = ExchangeMgr::new(SessionMgr::new());
    for id in 0..MAX_EXCHANGES as u16 {
        let _ = ExchangeMgr::_get(&mut mgr.exchanges, 0, id, Role::Responder, true).unwrap();
    }
    assert!(matches!(
        ExchangeMgr::_get(&mut mgr.exchanges, 0, 100, Role::Responder, true),
        Err(Error::NoSpace)
    ));
    // an existing id is still found
    assert!(ExchangeMgr::_get(&mut mgr.exchanges, 0, 3, Role::Responder, true).is_ok());
}

#[test]
fn evict_session_removes_its_exchanges_and_notifies() {
    let mut mgr = mgr_with_session();
    mgr.add_session(&get_clone_data(60, 6)).unwrap();
    let _ = ExchangeMgr::_get(&mut mgr.exchanges, 0, 11, Role::Responder, true).unwrap();
    let _ = ExchangeMgr::_get(&mut mgr.exchanges, 0, 12, Role::Initiator, true).unwrap();
    let _ = ExchangeMgr::_get(&mut mgr.exchanges, 1, 13, Role::Responder, true).unwrap();
    assert_eq!(mgr.evict_session(0), Ok(()));
    assert!(mgr.get_with_id(11).is_none());
    assert!(mgr.get_with_id(12).is_none());
    assert!(mgr.get_with_id(13).is_some());
    assert!(mgr.sess_mgr.get_with_id(5).is_none());
    assert!(mgr.sess_mgr.get_with_id(6).is_some());

    let q = mgr.take_tx_queue();
    assert_eq!(q.len(), 1);
    assert_eq!(q[0].proto.proto_id, PROTO_ID_SECURE_CHANNEL);
    assert_eq!(q[0].proto.proto_opcode, OPCODE_STATUS_REPORT);
    assert!(q[0].proto.exch_id == 11 || q[0].proto.exch_id == 12);
    assert_eq!(q[0].plain.sess_id, 50);
    assert_eq!(q[0].payload, vec![0, 0, 0, 0, 0, 0, 3, 0]);
}

#[test]
fn evict_session_without_exchanges_sends_nothing() {
    let mut mgr = mgr_with_session();
    assert_eq!(mgr.evict_session(0), Ok(()));
    assert!(mgr.sess_mgr.get_with_id(5).is_none());
    assert!(mgr.take_tx_queue().is_empty());
}

#[test]
fn recv_routes_and_filters_replays() {
    let mut mgr = mgr_with_session();
    let rx = inbound(5, 10, 7, true, true);
    let (p, ctx) = mgr.recv(rx).unwrap().unwrap();
    assert_eq!(p.payload, vec![1, 2, 3]);
    assert_eq!(ctx.exch_id, 7);
    assert_eq!(ctx.sess_idx, 0);
    let e = mgr.get_with_id(7).unwrap();
    assert_eq!(e.get_role(), Role::Responder);
    assert!(e.mrp.is_ack_ready());

    // the same counter again is a replay
    assert!(matches!(mgr.recv(inbound(5, 10, 7, true, true)), Err(Error::Duplicate)));

    // pending acknowledgements are reported
    let mut acks = ack_new();
    mgr.pending_acks(&mut acks);
    assert!(ack_contains(&acks, 7));
    assert!(!ack_contains(&acks, 8));
}

#[test]
fn recv_unknown_exchange_from_responder_fails() {
    let mut mgr = mgr_with_session();
    assert!(matches!(mgr.recv(inbound(5, 10, 8, false, false)), Err(Error::NoSpace)));
    assert!(mgr.get_with_id(8).is_none());
}

#[test]
fn recv_role_mismatch_is_no_exchange() {
    let mut mgr = mgr_with_session();
    let _ = ExchangeMgr::_get(&mut mgr.exchanges, 0, 8, Role::Initiator, true).unwrap();
    // the peer claims to be the initiator of an exchange we initiated
    assert!(matches!(mgr.recv(inbound(5, 10, 8, true, false)), Err(Error::NoExchange)));
}

#[test]
fn recv_unknown_session_is_no_session() {
    let mut mgr = mgr_with_session();
    assert!(matches!(mgr.recv(inbound(99, 10, 8, true, false)), Err(Error::NoSession)));
}

#[test]
fn recv_on_closed_exchange_is_absorbed() {
    let mut mgr = mgr_with_session();
    let _ = ExchangeMgr::_get(&mut mgr.exchanges, 0, 8, Role::Responder, true).unwrap();
    mgr.get_with_id(8).unwrap().close();
    assert!(matches!(mgr.recv(inbound(5, 10, 8, true, false)), Ok(None)));
}

#[test]
fn recv_plain_text_evicts_when_full() {
    let mut mgr = ExchangeMgr::new(SessionMgr::new());
    fill_sessions(&mut mgr, MAX_SESSIONS + 1);
    let _ = ExchangeMgr::_get(&mut mgr.exchanges, 0, 40, Role::Responder, true).unwrap();
    let mut rx = inbound(0, 1, 41, true, false);
    rx.plain.is_encrypted = false;
    let (_, ctx) = mgr.recv(rx).unwrap().unwrap();
    // the least recently used session (slot 0) made room for the plain-text one
    assert_eq!(ctx.sess_idx, 0);
    assert!(mgr.sess_mgr.get_with_id(1).is_none());
    assert!(mgr.get_with_id(40).is_none());
    assert!(mgr.get_with_id(41).is_some());
}

#[test]
fn send_stamps_exchange_and_session() {
    let mut mgr = mgr_with_session();
    let _ = ExchangeMgr::_get(&mut mgr.exchanges, 0, 7, Role::Initiator, true).unwrap();
    let mut tx = Packet::new_tx();
    tx.payload = vec![9, 9];
    assert_eq!(mgr.send(7, tx), Ok(()));
    let mut tx2 = Packet::new_tx();
    tx2.payload = vec![8];
    assert_eq!(mgr.send(7, tx2), Ok(()));
    let q = mgr.take_tx_queue();
    assert_eq!(q.len(), 2);
    assert_eq!(q[0].proto.exch_id, 7);
    assert!(q[0].proto.is_initiator());
    assert_eq!(q[0].plain.sess_id, 50);
    assert!(q[0].plain.is_encrypted);
    assert_eq!(q[0].payload, vec![9, 9]);
    assert_eq!(q[1].plain.ctr, q[0].plain.ctr + 1);
}

#[test]
fn send_errors() {
    let mut mgr = mgr_with_session();
    assert_eq!(mgr.send(7, Packet::new_tx()), Err(Error::NoExchange));
    let _ = ExchangeMgr::_get(&mut mgr.exchanges, 3, 8, Role::Responder, true).unwrap();
    assert_eq!(mgr.send(8, Packet::new_tx()), Err(Error::NoSession));
    let _ = ExchangeMgr::_get(&mut mgr.exchanges, 0, 9, Role::Responder, true).unwrap();
    let mut tx = Packet::new_tx();
    tx.proto.reliable = true;
    assert_eq!(mgr.send(9, tx), Ok(()));
    let mut tx = Packet::new_tx();
    tx.proto.reliable = true;
    assert_eq!(mgr.send(9, tx), Err(Error::NoSpace));
    let q = mgr.take_tx_queue();
    assert_eq!(q.len(), 1);
    assert!(!q[0].proto.is_initiator());
}

#[test]
fn send_on_terminated_exchange_is_swallowed() {
    let mut mgr = mgr_with_session();
    let _ = ExchangeMgr::_get(&mut mgr.exchanges, 0, 7, Role::Initiator, true).unwrap();
    mgr.get_with_id(7).unwrap().terminate();
    assert_eq!(mgr.send(7, Packet::new_tx()), Ok(()));
    assert!(mgr.take_tx_queue().is_empty());
}

#[test]
fn send_piggybacks_pending_ack() {
    let mut mgr = mgr_with_session();
    mgr.recv(inbound(5, 33, 7, true, true)).unwrap().unwrap();
    assert_eq!(mgr.send(7, Packet::new_tx()), Ok(()));
    let q = mgr.take_tx_queue();
    assert_eq!(q[0].proto.ack_msg_ctr, Some(33));
    assert!(!mgr.get_with_id(7).unwrap().mrp.is_ack_ready());
}

#[test]
fn roles() {
    assert_eq!(get_role(true), Role::Initiator);
    assert_eq!(get_role(false), Role::Responder);
    assert_eq!(get_complementary_role(true), Role::Responder);
    assert_eq!(get_complementary_role(false), Role::Initiator);
    assert_eq!(Role::default(), Role::Initiator);
}

#[test]
fn exchange_lifecycle() {
    let mut e = Exchange::new(4, 2, Role::Responder);
    assert!(e.is_state_open());
    assert!(!e.is_purgeable());
    assert!(e.is_data_none());
    e.set_data_time(Some(SysTime { secs: 1, nanos: 2 }));
    e.close();
    assert!(!e.is_state_open());
    assert!(e.is_data_none());
    assert!(e.is_purgeable());
    let mut t = Exchange::new(5, 2, Role::Initiator);
    t.terminate();
    assert!(t.is_purgeable());
}

#[test]
fn exchange_payload_slot() {
    let mut e = Exchange::new(4, 2, Role::Responder);
    e.set_data_boxed(OpaqueData { type_tag: 7, bytes: vec![1, 2] });
    assert!(!e.is_data_none());
    assert_eq!(e.get_data_boxed(7), Some(&mut vec![1, 2]));
    assert_eq!(e.get_data_boxed(8), None);
    e.get_data_boxed(7).unwrap().push(5);
    assert_eq!(e.get_data_boxed(7), Some(&mut vec![1, 2, 5]));
    assert_eq!(e.get_data_time(), None);
    // a blob of another type is dropped when taken
    assert_eq!(e.take_data_boxed(8), None);
    assert!(e.is_data_none());

    e.set_data_boxed(OpaqueData { type_tag: 7, bytes: vec![3] });
    assert_eq!(e.take_data_boxed(7), Some(vec![3]));
    assert!(e.is_data_none());

    e.set_data_time(Some(SysTime { secs: 10, nanos: 0 }));
    e.set_data_time(None);
    assert_eq!(e.get_data_time(), Some(SysTime { secs: 10, nanos: 0 }));
    // a timestamp stays when a blob is asked for
    assert_eq!(e.take_data_boxed(7), None);
    assert!(matches!(e.data, DataOption::Time(_)));
    e.clear_data_boxed();
    assert!(e.is_data_none());
}

#[test]
fn evict_session_notifies_on_an_exchange_that_can_send() {
    let mut mgr = mgr_with_session();
    let _ = ExchangeMgr::_get(&mut mgr.exchanges, 0, 11, Role::Responder, true).unwrap();
    let _ = ExchangeMgr::_get(&mut mgr.exchanges, 0, 12, Role::Responder, true).unwrap();
    mgr.get_with_id(11).unwrap().terminate();
    assert_eq!(mgr.evict_session(0), Ok(()));
    let q = mgr.take_tx_queue();
    assert_eq!(q.len(), 1);
    assert_eq!(q[0].proto.exch_id, 12);
    assert_eq!(q[0].payload, vec![0, 0, 0, 0, 0, 0, 3, 0]);
}

#[test]
fn evict_session_with_only_terminated_exchanges_sends_nothing() {
    let mut mgr = mgr_with_session();
    let _ = ExchangeMgr::_get(&mut mgr.exchanges, 0, 11, Role::Responder, true).unwrap();
    mgr.get_with_id(11).unwrap().terminate();
    assert_eq!(mgr.evict_session(0), Ok(()));
    assert!(mgr.take_tx_queue().is_empty());
    assert!(mgr.get_with_id(11).is_none());
}

#[test]
fn pending_acks_lists_only_owed_acks() {
    let mut mgr = mgr_with_session();
    mgr.recv(inbound(5, 10, 7, true, true)).unwrap().unwrap();
    mgr.recv(inbound(5, 11, 8, true, false)).unwrap().unwrap();
    let mut acks = ack_new();
    assert!(!ack_contains(&acks, 7));
    mgr.pending_acks(&mut acks);
    assert!(ack_contains(&acks, 7));
    assert!(!ack_contains(&acks, 8));
}
