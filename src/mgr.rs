//! The exchange manager: a bounded table of exchanges over a session table.
//! It routes inbound messages to exchanges, stamps outbound ones, purges
//! finished exchanges and evicts sessions under capacity pressure.
use vstd::prelude::*;
use crate::error::Error;
use crate::exchange::{
    complementary_role_of, get_complementary_role, DataOption, Exchange, Role, State,
};
use crate::mrp::{mrp_after_recv, ReliableMessage};
use crate::dedup::{fresh_window, recv_result, RxCtrState};
use crate::packet::{Packet, OPCODE_STATUS_REPORT, PROTO_ID_SECURE_CHANNEL};
use crate::secure_channel::{create_sc_status_report, status_report_bytes, SCStatusCodes};
use crate::session::{
    lemma_first_free_unique, lemma_lru_unique, plain_text_data,
    session_from, CloneData, Session, SessionMgr, MAX_SESSIONS,
};
use crate::table::{
    ack_entries, ack_insert, exchange_table, AckSet, MAX_MRP_ENTRIES, table_contains, table_get, table_get_mut, table_ids, table_insert,
    table_new, table_remove, ExchangeTable, MAX_EXCHANGES,
};

verus! {

/// Where a delivered message belongs: its exchange and its session slot.
#[derive(Debug, Clone, Copy, PartialEq, Eq, Structural)]
pub struct ExchangeCtx {
    pub exch_id: u16,
    pub sess_idx: usize,
}

pub struct ExchangeMgr {
    /// Exchanges by id.
    pub exchanges: ExchangeTable,
    pub sess_mgr: SessionMgr,
    /// Outbound messages, stamped and ready to be encrypted and transmitted.
    pub tx_queue: Vec<Packet>,
}

/// A new open exchange with empty reliability state and no payload.
pub open spec fn fresh_exchange(id: u16, sess_idx: usize, role: Role) -> Exchange {
    Exchange {
        id,
        sess_idx,
        role,
        state: State::Open,
        mrp: ReliableMessage { retrans: None, ack: None },
        data: DataOption::Empty,
    }
}

/// What looking up (and, if `create_new`, creating) exchange `id` for session
/// `sess_idx` and local role `role` does to table `t`: the table afterwards,
/// in which `id` names the exchange handed out, or the error.
pub open spec fn get_outcome(
    t: Map<u16, Exchange>,
    sess_idx: usize,
    id: u16,
    role: Role,
    create_new: bool,
) -> Result<Map<u16, Exchange>, Error> {
    if t.contains_key(id) {
        if t[id].role == role && t[id].sess_idx == sess_idx {
            Ok(t)
        } else {
            Err(Error::NoExchange)
        }
    } else if create_new && t.len() < MAX_EXCHANGES {
        Ok(t.insert(id, fresh_exchange(id, sess_idx, role)))
    } else {
        Err(Error::NoSpace)
    }
}

/// Once an exchange has been created, asking to create it again hands out the
/// same exchange and leaves the table as it is, when the role and session
/// match; otherwise it is `NoExchange`.
pub proof fn lemma_create_twice_returns_original(
    t: Map<u16, Exchange>,
    sess_idx: usize,
    id: u16,
    role: Role,
    sess_idx2: usize,
    role2: Role,
)
    requires
        get_outcome(t, sess_idx, id, role, true) is Ok,
    ensures
        ({
            let t1 = get_outcome(t, sess_idx, id, role, true)->Ok_0;
            &&& role2 == role && sess_idx2 == sess_idx ==> get_outcome(t1, sess_idx2, id, role2, true) == Ok::<Map<u16, Exchange>, Error>(t1)
            &&& !(role2 == role && sess_idx2 == sess_idx) ==> get_outcome(t1, sess_idx2, id, role2, true) == Err::<Map<u16, Exchange>, Error>(Error::NoExchange)
        }),
{
}

/// Table `t` without its purgeable exchanges.
pub open spec fn purged(t: Map<u16, Exchange>) -> Map<u16, Exchange> {
    t.restrict(t.dom().filter(|id: u16| !t[id].purgeable()))
}

/// The ids of the exchanges in `t` that owe the peer an acknowledgement.
pub open spec fn ack_ready_ids(t: Map<u16, Exchange>) -> Set<u16> {
    t.dom().filter(|id: u16| t[id].mrp.ack is Some)
}

/// `id` occurs among the first `i` entries of `ids`.
pub open spec fn seen_before(ids: Seq<u16>, i: int, id: u16) -> bool {
    exists|j: int| 0 <= j < i && #[trigger] ids[j] == id
}

proof fn lemma_seen_step(ids: Seq<u16>, i: int)
    requires
        0 <= i < ids.len(),
    ensures
        forall|k: u16| #[trigger] seen_before(ids, i + 1, k) <==> (seen_before(ids, i, k) || k == ids[i]),
{
    assert forall|k: u16| #[trigger] seen_before(ids, i + 1, k) <==> (seen_before(ids, i, k) || k == ids[i]) by {
        if k == ids[i] {
            assert(ids[i] == k);
        }
    }
}

proof fn lemma_seen_all(ids: Seq<u16>)
    ensures
        forall|k: u16| #[trigger] seen_before(ids, ids.len() as int, k) <==> ids.contains(k),
{
}

/// Table `t` without the exchanges bound to session slot `index`.
pub open spec fn without_session(t: Map<u16, Exchange>, index: usize) -> Map<u16, Exchange> {
    t.restrict(t.dom().filter(|id: u16| t[id].sess_idx != index))
}

/// After evicting session slot `index`, no exchange bound to it remains.
pub proof fn lemma_evicted_session_has_no_exchange(t: Map<u16, Exchange>, index: usize)
    ensures
        forall|id: u16| #[trigger] without_session(t, index).contains_key(id)
            ==> without_session(t, index)[id].sess_idx != index,
{
}

/// A table of at most `MAX_EXCHANGES` exchanges, each stored under its own id.
pub open spec fn table_wf(t: Map<u16, Exchange>) -> bool {
    &&& t.dom().finite()
    &&& t.len() <= MAX_EXCHANGES
    &&& forall|k: u16| #[trigger] t.contains_key(k) ==> t[k].id == k
}

/// Keeping part of a well-formed table keeps it well-formed.
proof fn lemma_restrict_wf(t: Map<u16, Exchange>, keep: Set<u16>)
    requires
        table_wf(t),
    ensures
        table_wf(t.restrict(keep)),
{
    vstd::set_lib::lemma_len_subset(t.restrict(keep).dom(), t.dom());
}

/// A successful lookup keeps a table well-formed, and so does updating the
/// exchange it handed out without changing its id.
proof fn lemma_outcome_wf(t: Map<u16, Exchange>, sess_idx: usize, id: u16, role: Role, create_new: bool, e: Exchange)
    requires
        table_wf(t),
        get_outcome(t, sess_idx, id, role, create_new) is Ok,
        e.id == id,
    ensures
        table_wf(get_outcome(t, sess_idx, id, role, create_new)->Ok_0),
        get_outcome(t, sess_idx, id, role, create_new)->Ok_0.contains_key(id),
        table_wf(get_outcome(t, sess_idx, id, role, create_new)->Ok_0.insert(id, e)),
{
    let t2 = get_outcome(t, sess_idx, id, role, create_new)->Ok_0;
    assert(t2.insert(id, e).dom() =~= t2.dom());
}

/// What `ExchangeMgr::recv` returns.
pub type RecvResult = Result<Option<(Packet, ExchangeCtx)>, Error>;

/// What receiving `rx` on session slot `i` does, when the session's counter
/// window is `window` and the exchanges are `t`: a replayed counter is
/// `Duplicate`; otherwise the exchange is looked up or created as `get_outcome`
/// says and its reliability state accounts for `rx`, and the message is handed
/// back when the exchange is open, absorbed (`None`) when it is not. The
/// window becomes `final_window` and the exchanges `final_t`; on an error the
/// exchanges are unchanged.
pub open spec fn routed(
    rx: Packet,
    i: int,
    window: RxCtrState,
    t: Map<u16, Exchange>,
    r: RecvResult,
    final_window: RxCtrState,
    final_t: Map<u16, Exchange>,
) -> bool {
    let w = recv_result(window, rx.plain.ctr, rx.plain.is_encrypted);
    let id = rx.proto.exch_id;
    let init = rx.proto.initiator;
    let outcome = get_outcome(t, i as usize, id, complementary_role_of(init), init);
    &&& final_window == w.0
    &&& w.1 ==> r == Err::<Option<(Packet, ExchangeCtx)>, Error>(Error::Duplicate) && final_t == t
    &&& !w.1 && outcome is Err ==> r == Err::<Option<(Packet, ExchangeCtx)>, Error>(outcome->Err_0) && final_t == t
    &&& !w.1 && outcome is Ok ==> {
        let t2 = outcome->Ok_0;
        let e = Exchange { mrp: mrp_after_recv(t2[id].mrp, rx), ..t2[id] };
        &&& final_t == t2.insert(id, e)
        &&& e.state == State::Open ==> r == Ok::<Option<(Packet, ExchangeCtx)>, Error>(
            Some((rx, ExchangeCtx { exch_id: id, sess_idx: i as usize })),
        )
        &&& e.state != State::Open ==> r == Ok::<Option<(Packet, ExchangeCtx)>, Error>(None)
    }
}

/// Purging twice removes nothing more than purging once.
pub proof fn lemma_purge_idempotent(t: Map<u16, Exchange>)
    ensures
        purged(purged(t)) == purged(t),
{
    assert(purged(purged(t)) =~= purged(t));
}

impl ExchangeMgr {
    /// The exchanges, by id.
    pub open spec fn table(&self) -> Map<u16, Exchange> {
        exchange_table(self.exchanges)
    }

    pub open spec fn wf(&self) -> bool {
        &&& self.sess_mgr.wf()
        &&& table_wf(self.table())
    }

    pub fn new(sess_mgr: SessionMgr) -> (r: Self)
        requires
            sess_mgr.wf(),
        ensures
            r.wf(),
            r.table() == Map::<u16, Exchange>::empty(),
            r.sess_mgr == sess_mgr,
            r.tx_queue@.len() == 0,
    {
        let r = ExchangeMgr { exchanges: table_new(), sess_mgr, tx_queue: Vec::new() };
        assert(r.table().dom() =~= Set::<u16>::empty());
        r
    }

    pub fn get_sess_mgr(&mut self) -> (r: &mut SessionMgr)
        ensures
            *r == old(self).sess_mgr,
            final(self).sess_mgr == *final(r),
            final(self).exchanges == old(self).exchanges,
            final(self).tx_queue == old(self).tx_queue,
    {
        &mut self.sess_mgr
    }

    /// The exchange stored under `exch_id` in `exchanges`, if any.
    pub fn _get_with_id(exchanges: &mut ExchangeTable, exch_id: u16) -> (r: Option<&mut Exchange>)
        ensures
            r is Some <==> exchange_table(*old(exchanges)).contains_key(exch_id),
            r matches Some(e) ==> *e == exchange_table(*old(exchanges))[exch_id],
            r matches Some(e) ==> exchange_table(*final(exchanges)) == exchange_table(*old(exchanges)).insert(exch_id, *final(e)),
            r is None ==> exchange_table(*final(exchanges)) == exchange_table(*old(exchanges)),
    {
        table_get_mut(exchanges, exch_id)
    }

    /// The exchange with id `exch_id`, if any.
    pub fn get_with_id(&mut self, exch_id: u16) -> (r: Option<&mut Exchange>)
        requires
            old(self).wf(),
        ensures
            r matches Some(e) ==> e.id == exch_id,
            r is Some <==> old(self).table().contains_key(exch_id),
            r matches Some(e) ==> *e == old(self).table()[exch_id],
            r matches Some(e) ==> final(self).table() == old(self).table().insert(exch_id, *final(e)),
            r is None ==> final(self).table() == old(self).table(),
            final(self).sess_mgr == old(self).sess_mgr,
            final(self).tx_queue == old(self).tx_queue,
    {
        ExchangeMgr::_get_with_id(&mut self.exchanges, exch_id)
    }

    /// Looks up exchange `id`, creating it when it is missing and `create_new`
    /// holds. A stored exchange is handed out only if its role and session
    /// match (else `NoExchange`); a missing one that may not or cannot be
    /// created is `NoSpace`.
    pub fn _get(
        exchanges: &mut ExchangeTable,
        sess_idx: usize,
        id: u16,
        role: Role,
        create_new: bool,
    ) -> (r: Result<&mut Exchange, Error>)
        requires
            exchange_table(*old(exchanges)).dom().finite(),
        ensures
            exchange_table(*final(exchanges)).dom().finite(),
            get_outcome(exchange_table(*old(exchanges)), sess_idx, id, role, create_new) matches Ok(t) ==> (
                r matches Ok(e) && *e == t[id] && exchange_table(*final(exchanges)) == t.insert(id, *final(e))),
            get_outcome(exchange_table(*old(exchanges)), sess_idx, id, role, create_new) matches Err(err) ==> (
                r matches Err(x) && x == err && exchange_table(*final(exchanges)) == exchange_table(*old(exchanges))),
    {
        if !table_contains(exchanges, id) {
            if create_new {
                let e = Exchange::new(id, sess_idx, role);
                if table_insert(exchanges, id, e).is_err() {
                    return Err(Error::NoSpace);
                }
            } else {
                return Err(Error::NoSpace);
            }
        }
        match table_get_mut(exchanges, id) {
            Some(result) => {
                if result.get_role() == role && sess_idx == result.sess_idx {
                    Ok(result)
                } else {
                    Err(Error::NoExchange)
                }
            },
            None => Err(Error::NoSpace),
        }
    }

    /// Evicting session slot `index` owes the peer a close-session notice: the
    /// session exists and some exchange bound to it is not terminated.
    pub open spec fn notifies(&self, index: usize) -> bool {
        &&& self.sess_mgr.present(index as int)
        &&& exists|k: u16| #[trigger] self.table().contains_key(k) && self.table()[k].sess_idx == index
            && self.table()[k].state != State::Terminate
    }

    /// Removes every purgeable exchange, and only those.
    pub fn purge(&mut self)
        requires
            old(self).wf(),
        ensures
            final(self).wf(),
            final(self).table() == purged(old(self).table()),
            final(self).sess_mgr == old(self).sess_mgr,
            final(self).tx_queue == old(self).tx_queue,
    {
        let ghost t0 = self.table();
        // the ids are collected first, so the scan and the removals do not overlap
        let ids = table_ids(&self.exchanges);
        let mut i: usize = 0;
        while i < ids.len()
            invariant
                i <= ids@.len(),
                ids@.no_duplicates(),
                forall|id: u16| ids@.contains(id) <==> t0.contains_key(id),
                self.sess_mgr == old(self).sess_mgr,
                self.tx_queue == old(self).tx_queue,
                forall|id: u16| #[trigger] self.table().contains_key(id) <==> (t0.contains_key(id)
                    && !(seen_before(ids@, i as int, id) && t0[id].purgeable())),
                forall|id: u16| #[trigger] self.table().contains_key(id) ==> self.table()[id] == t0[id],
                self.table().dom().finite(),
            decreases ids@.len() - i,
        {
            let id = ids[i];
            let purgeable = match table_get(&self.exchanges, id) {
                Some(e) => e.is_purgeable(),
                None => false,
            };
            if purgeable {
                table_remove(&mut self.exchanges, id);
            }
            proof {
                lemma_seen_step(ids@, i as int);
            }
            i = i + 1;
        }
        proof {
            lemma_seen_all(ids@);
            assert(self.table() =~= purged(t0));
            lemma_restrict_wf(t0, t0.dom().filter(|id: u16| !t0[id].purgeable()));
        }
    }

    /// Adds to `expired_entries` the id of every exchange that owes the peer an
    /// acknowledgement. The set must have room for them.
    pub fn pending_acks(&self, expired_entries: &mut AckSet)
        requires
            self.wf(),
            ack_entries(*old(expired_entries)).finite(),
            ack_entries(*old(expired_entries)).union(ack_ready_ids(self.table())).len() <= MAX_MRP_ENTRIES,
        ensures
            ack_entries(*final(expired_entries)) == ack_entries(*old(expired_entries)).union(ack_ready_ids(self.table())),
    {
        let ghost t = self.table();
        let ghost full = ack_entries(*expired_entries).union(ack_ready_ids(t));
        let ids = table_ids(&self.exchanges);
        let mut i: usize = 0;
        while i < ids.len()
            invariant
                i <= ids@.len(),
                t == self.table(),
                t.dom().finite(),
                full == ack_entries(*old(expired_entries)).union(ack_ready_ids(t)),
                full.finite(),
                full.len() <= MAX_MRP_ENTRIES,
                forall|id: u16| ids@.contains(id) <==> t.contains_key(id),
                forall|id: u16| #[trigger] ack_entries(*expired_entries).contains(id) <==> (
                    ack_entries(*old(expired_entries)).contains(id)
                    || (seen_before(ids@, i as int, id) && ack_ready_ids(t).contains(id))),
            decreases ids@.len() - i,
        {
            let id = ids[i];
            let ready = match table_get(&self.exchanges, id) {
                Some(e) => e.mrp.is_ack_ready(),
                None => false,
            };
            proof {
                assert(ids@.contains(id));
                assert(ack_entries(*expired_entries).subset_of(full));
                if ready {
                    assert(ack_entries(*expired_entries).insert(id).subset_of(full));
                    vstd::set_lib::lemma_len_subset(ack_entries(*expired_entries).insert(id), full);
                    if !ack_entries(*expired_entries).contains(id) {
                        vstd::set_lib::lemma_len_subset(ack_entries(*expired_entries), full);
                    }
                }
            }
            if ready {
                let _ = ack_insert(expired_entries, id);
            }
            proof {
                lemma_seen_step(ids@, i as int);
            }
            i = i + 1;
        }
        proof {
            lemma_seen_all(ids@);
            assert(ack_entries(*expired_entries) =~= full);
        }
    }

    /// Evicts the session in slot `index`: a close-session status report is
    /// queued on the first exchange bound to it that is not terminated (a
    /// notice to the peer), then
    /// every exchange bound to it is removed, and then the session itself.
    pub fn evict_session(&mut self, index: usize) -> (r: Result<(), Error>)
        requires
            old(self).wf(),
            index < MAX_SESSIONS,
        ensures
            final(self).wf(),
            r is Ok,
            final(self).table() == without_session(old(self).table(), index),
            final(self).sess_mgr.sessions@ == old(self).sess_mgr.sessions@.update(index as int, None),
            final(self).sess_mgr.clock == old(self).sess_mgr.clock,
            old(self).notifies(index) ==> ({
                let p = final(self).tx_queue@.last();
                &&& final(self).tx_queue@.len() == old(self).tx_queue@.len() + 1
                &&& final(self).tx_queue@.drop_last() == old(self).tx_queue@
                &&& p.proto.proto_id == PROTO_ID_SECURE_CHANNEL
                &&& p.proto.proto_opcode == OPCODE_STATUS_REPORT
                &&& p.payload@ == status_report_bytes(SCStatusCodes::CloseSession, Seq::empty())
                &&& p.plain.sess_id == old(self).sess_mgr.sessions@[index as int]->Some_0.peer_sess_id
                &&& old(self).table().contains_key(p.proto.exch_id)
                &&& old(self).table()[p.proto.exch_id].sess_idx == index
                &&& old(self).table()[p.proto.exch_id].state != State::Terminate
            }),
            !old(self).notifies(index) ==> final(self).tx_queue == old(self).tx_queue,
    {
        let ghost t0 = self.table();
        let ghost q0 = self.tx_queue@;
        let mut tx = Packet::new_tx();
        create_sc_status_report(&mut tx, SCStatusCodes::CloseSession, None);
        let ids = table_ids(&self.exchanges);

        // the first exchange bound to the session that can still send carries the notice
        let mut first: Option<u16> = None;
        let mut i: usize = 0;
        while i < ids.len()
            invariant
                i <= ids@.len(),
                self.table() == t0,
                self.sess_mgr == old(self).sess_mgr,
                self.tx_queue == old(self).tx_queue,
                self.tx_queue@ == q0,
                forall|id: u16| ids@.contains(id) <==> t0.contains_key(id),
                ids@.no_duplicates(),
                first matches Some(id) ==> t0.contains_key(id) && t0[id].sess_idx == index
                    && t0[id].state != State::Terminate,
                first is None ==> forall|k: u16| #[trigger] seen_before(ids@, i as int, k) ==> !(t0.contains_key(k)
                    && t0[k].sess_idx == index && t0[k].state != State::Terminate),
            decreases ids@.len() - i,
        {
            let id = ids[i];
            if first.is_none() {
                match table_get(&self.exchanges, id) {
                    Some(e) => {
                        if e.sess_idx == index && e.state != State::Terminate {
                            first = Some(id);
                        }
                    },
                    None => {},
                }
            }
            proof {
                lemma_seen_step(ids@, i as int);
            }
            i = i + 1;
        }
        proof {
            lemma_seen_all(ids@);
            if old(self).notifies(index) {
                let k = choose|k: u16| #[trigger] t0.contains_key(k) && t0[k].sess_idx == index
                    && t0[k].state != State::Terminate;
                assert(ids@.contains(k));
                assert(seen_before(ids@, ids@.len() as int, k));
                assert(first is Some);
            }
        }
        if let Some(id) = first {
            assert(t0.contains_key(id) && t0[id].sess_idx == index && t0[id].state != State::Terminate);
            if self.sess_mgr.sessions[index].is_some() {
                assert(old(self).notifies(index));
                let session = self.sess_mgr.get_session_handle(index);
                match table_get_mut(&mut self.exchanges, id) {
                    Some(exchange) => {
                        match exchange.send(tx, session) {
                            Ok(Some(p)) => {
                                self.tx_queue.push(p);
                            },
                            Ok(None) => {},
                            Err(e) => {
                                return Err(e);
                            },
                        }
                    },
                    None => {},
                }
            }
        }
        let ghost t1 = self.table();
        let ghost s1 = self.sess_mgr.sessions@;
        let ghost q1 = self.tx_queue@;
        let ghost qv1 = self.tx_queue;
        assert(!old(self).notifies(index) ==> qv1 == old(self).tx_queue);
        assert(old(self).notifies(index) ==> q1.len() == q0.len() + 1 && q1.drop_last() =~= q0);
        assert(s1.len() == MAX_SESSIONS);
        assert(forall|j: int| 0 <= j < MAX_SESSIONS && j != index ==> s1[j] == old(self).sess_mgr.sessions@[j]);
        assert(self.sess_mgr.clock == old(self).sess_mgr.clock);
        assert(forall|id: u16| #[trigger] t1.contains_key(id) <==> t0.contains_key(id));
        assert(forall|id: u16| #[trigger] t1.contains_key(id) ==> t1[id].sess_idx == t0[id].sess_idx);
        assert(forall|id: u16| #[trigger] t1.contains_key(id) && t0[id].sess_idx != index ==> t1[id] == t0[id]);

        // then every exchange bound to the session goes
        let mut i: usize = 0;
        while i < ids.len()
            invariant
                i <= ids@.len(),
                forall|id: u16| ids@.contains(id) <==> t1.contains_key(id),
                forall|id: u16| #[trigger] t1.contains_key(id) <==> t0.contains_key(id),
                forall|id: u16| #[trigger] t1.contains_key(id) ==> t1[id].sess_idx == t0[id].sess_idx,
                forall|id: u16| #[trigger] t1.contains_key(id) && t0[id].sess_idx != index ==> t1[id] == t0[id],
                forall|id: u16| #[trigger] self.table().contains_key(id) <==> (t1.contains_key(id)
                    && !(seen_before(ids@, i as int, id) && t1[id].sess_idx == index)),
                forall|id: u16| #[trigger] self.table().contains_key(id) ==> self.table()[id] == t1[id],
                self.table().dom().finite(),
                self.sess_mgr.wf(),
                self.sess_mgr.sessions@ == s1,
                self.sess_mgr.clock == old(self).sess_mgr.clock,
                self.tx_queue == qv1,
                self.tx_queue@ == q1,
            decreases ids@.len() - i,
        {
            let id = ids[i];
            let bound = match table_get(&self.exchanges, id) {
                Some(e) => e.sess_idx == index,
                None => false,
            };
            if bound {
                table_remove(&mut self.exchanges, id);
            }
            proof {
                lemma_seen_step(ids@, i as int);
            }
            i = i + 1;
        }
        self.sess_mgr.remove(index);
        proof {
            lemma_seen_all(ids@);
            assert(self.table() =~= without_session(t0, index));
            lemma_restrict_wf(t0, t0.dom().filter(|id: u16| t0[id].sess_idx != index));
            assert(self.sess_mgr.sessions@ =~= old(self).sess_mgr.sessions@.update(index as int, None));
        }
        Ok(())
    }

    /// Creates a session from a completed handshake. When every slot is taken,
    /// the least recently used session is evicted first and its slot reused.
    pub fn add_session(&mut self, clone_data: &CloneData) -> (r: Result<usize, Error>)
        requires
            old(self).wf(),
        ensures
            final(self).wf(),
            r matches Ok(i) ==> i < MAX_SESSIONS
                && final(self).sess_mgr.sessions@[i as int] == Some(session_from(*clone_data, old(self).sess_mgr.clock)),
            !old(self).sess_mgr.full() ==> r is Ok && final(self).table() == old(self).table()
                && final(self).tx_queue == old(self).tx_queue,
            forall|i: int| #[trigger] old(self).sess_mgr.is_first_free(i) ==> ({
                &&& r == Ok::<usize, Error>(i as usize)
                &&& final(self).sess_mgr.sessions@ == old(self).sess_mgr.sessions@.update(i, Some(session_from(*clone_data, old(self).sess_mgr.clock)))
                &&& final(self).sess_mgr.clock == old(self).sess_mgr.next_clock()
            }),
            forall|i: int| old(self).sess_mgr.full() && #[trigger] old(self).sess_mgr.is_lru(i) ==> ({
                &&& r == Ok::<usize, Error>(i as usize)
                &&& final(self).sess_mgr.sessions@ == old(self).sess_mgr.sessions@.update(i, Some(session_from(*clone_data, old(self).sess_mgr.clock)))
                &&& final(self).sess_mgr.clock == old(self).sess_mgr.next_clock()
                &&& final(self).table() == without_session(old(self).table(), i as usize)
            }),
            old(self).sess_mgr.full() ==> (r matches Ok(i) && {
                &&& forall|j: int| #[trigger] old(self).sess_mgr.present(j)
                    ==> old(self).sess_mgr.sessions@[i as int]->Some_0.last_use <= old(self).sess_mgr.sessions@[j]->Some_0.last_use
                &&& final(self).table() == without_session(old(self).table(), i)
            }),
    {
        match self.sess_mgr.clone_session(clone_data) {
            Ok(idx) => {
                assert forall|i: int| #[trigger] old(self).sess_mgr.is_first_free(i) implies i == idx by {
                    lemma_first_free_unique(old(self).sess_mgr, i, idx as int);
                }
                Ok(idx)
            },
            Err(_) => {
                // the table is full: make room by evicting the least recently used session
                assert(self.sess_mgr.present(0));
                let evict_index = match self.sess_mgr.get_lru() {
                    Some(i) => i,
                    None => {
                        return Err(Error::NoSpace);
                    },
                };
                match self.evict_session(evict_index) {
                    Ok(()) => {},
                    Err(e) => {
                        return Err(e);
                    },
                }
                let ghost before = self.sess_mgr;
                assert(!before.present(evict_index as int));
                assert forall|i: int| old(self).sess_mgr.full() && #[trigger] old(self).sess_mgr.is_lru(i) implies i == evict_index by {
                    lemma_lru_unique(old(self).sess_mgr, i, evict_index as int);
                }
                let r = self.sess_mgr.clone_session(clone_data);
                proof {
                    if let Ok(i) = r {
                        assert(old(self).sess_mgr.present(i as int));
                        if i != evict_index {
                            assert(before.present(i as int));
                        }
                        assert(self.sess_mgr.sessions@ =~= old(self).sess_mgr.sessions@.update(i as int, Some(session_from(*clone_data, old(self).sess_mgr.clock))));
                    }
                }
                r
            },
        }
    }

    /// Sends `proto_tx` on exchange `exch_id`: the message is stamped by the
    /// exchange and its session and queued for transmission. A terminated
    /// exchange swallows it.
    pub fn send(&mut self, exch_id: u16, proto_tx: Packet) -> (r: Result<(), Error>)
        requires
            old(self).wf(),
        ensures
            final(self).wf(),
            !old(self).table().contains_key(exch_id) ==> r == Err::<(), Error>(Error::NoExchange)
                && final(self).table() == old(self).table() && final(self).tx_queue == old(self).tx_queue,
            old(self).table().contains_key(exch_id) && !old(self).sess_mgr.present(old(self).table()[exch_id].sess_idx as int)
                ==> r == Err::<(), Error>(Error::NoSession) && final(self).table() == old(self).table()
                && final(self).tx_queue == old(self).tx_queue,
            ({
                let e = old(self).table()[exch_id];
                let sess = old(self).sess_mgr.sessions@[e.sess_idx as int]->Some_0;
                old(self).table().contains_key(exch_id) && old(self).sess_mgr.present(e.sess_idx as int) ==> {
                    &&& e.state == State::Terminate ==> r is Ok && final(self).tx_queue == old(self).tx_queue
                    &&& e.state != State::Terminate && proto_tx.proto.reliable && e.mrp.retrans is Some
                        ==> r == Err::<(), Error>(Error::NoSpace)
                    &&& e.state != State::Terminate && !(proto_tx.proto.reliable && e.mrp.retrans is Some) ==> {
                        &&& r is Ok
                        &&& final(self).tx_queue@.len() == old(self).tx_queue@.len() + 1
                        &&& final(self).tx_queue@.drop_last() == old(self).tx_queue@
                        &&& final(self).tx_queue@.last().proto.exch_id == e.id
                        &&& final(self).tx_queue@.last().plain.sess_id == sess.peer_sess_id
                        &&& final(self).tx_queue@.last().plain.ctr == sess.tx_ctr
                        &&& final(self).tx_queue@.last().payload == proto_tx.payload
                    }
                }
            }),
            old(self).table().contains_key(exch_id) ==> ({
                let e1 = final(self).table()[exch_id];
                &&& final(self).table() == old(self).table().insert(exch_id, e1)
                &&& e1 == (Exchange { mrp: e1.mrp, ..old(self).table()[exch_id] })
            }),
            r is Err ==> final(self).table() == old(self).table(),
    {
        let exchange = match table_get_mut(&mut self.exchanges, exch_id) {
            Some(e) => e,
            None => {
                return Err(Error::NoExchange);
            },
        };
        let idx = exchange.sess_idx;
        if idx >= MAX_SESSIONS || self.sess_mgr.sessions[idx].is_none() {
            return Err(Error::NoSession);
        }
        let session = self.sess_mgr.get_session_handle(idx);
        let ghost t0 = old(self).table();
        let r = exchange.send(proto_tx, session);
        proof {
            if r is Err {
                assert(self.table() =~= t0);
            }
        }
        match r {
            Ok(Some(p)) => {
                self.tx_queue.push(p);
                Ok(())
            },
            Ok(None) => Ok(()),
            Err(e) => Err(e),
        }
    }

    /// Takes the queued outbound messages, oldest first.
    pub fn take_tx_queue(&mut self) -> (r: Vec<Packet>)
        ensures
            r@ == old(self).tx_queue@,
            final(self).tx_queue@.len() == 0,
            final(self).exchanges == old(self).exchanges,
            final(self).sess_mgr == old(self).sess_mgr,
    {
        let mut q: Vec<Packet> = Vec::new();
        std::mem::swap(&mut q, &mut self.tx_queue);
        q
    }

    /// Finds the session slot of an inbound message: a session with its local
    /// id, or for id 0 a new plain-text session, in the first free slot or, when
    /// every slot is taken, in the slot of the least recently used session,
    /// which is evicted first.
    fn resolve_session(&mut self, rx: &Packet) -> (r: Result<usize, Error>)
        requires
            old(self).wf(),
        ensures
            final(self).wf(),
            r matches Ok(i) ==> final(self).sess_mgr.present(i as int),
            forall|i: int| #[trigger] old(self).sess_mgr.is_first_with_id(i, rx.plain.sess_id) ==> ({
                &&& r == Ok::<usize, Error>(i as usize)
                &&& final(self).table() == old(self).table()
                &&& final(self).tx_queue == old(self).tx_queue
                &&& final(self).sess_mgr.sessions@ == old(self).sess_mgr.sessions@.update(
                    i,
                    Some(Session { last_use: old(self).sess_mgr.clock, ..old(self).sess_mgr.sessions@[i]->Some_0 }),
                )
            }),
            rx.plain.sess_id != 0 && old(self).sess_mgr.lacks_id(rx.plain.sess_id) ==> {
                &&& r == Err::<usize, Error>(Error::NoSession)
                &&& final(self).table() == old(self).table()
                &&& final(self).tx_queue == old(self).tx_queue
                &&& final(self).sess_mgr == old(self).sess_mgr
            },
            forall|i: int| rx.plain.sess_id == 0 && old(self).sess_mgr.lacks_id(0) && #[trigger] old(self).sess_mgr.is_first_free(i) ==> ({
                &&& r == Ok::<usize, Error>(i as usize)
                &&& final(self).table() == old(self).table()
                &&& final(self).tx_queue == old(self).tx_queue
                &&& final(self).sess_mgr.sessions@ == old(self).sess_mgr.sessions@.update(i, Some(session_from(plain_text_data(), old(self).sess_mgr.clock)))
            }),
            forall|i: int| rx.plain.sess_id == 0 && old(self).sess_mgr.lacks_id(0) && old(self).sess_mgr.full() && #[trigger] old(self).sess_mgr.is_lru(i) ==> ({
                &&& r == Ok::<usize, Error>(i as usize)
                &&& final(self).table() == without_session(old(self).table(), i as usize)
                &&& final(self).sess_mgr.sessions@ == old(self).sess_mgr.sessions@.update(i, Some(session_from(plain_text_data(), old(self).sess_mgr.clock)))
            }),
    {
        match self.sess_mgr.post_recv(rx) {
            Err(e) => Err(e),
            Ok(Some(s)) => {
                proof {
                    assert forall|i: int| #[trigger] old(self).sess_mgr.is_first_with_id(i, rx.plain.sess_id) implies i == s by {}
                }
                Ok(s)
            },
            Ok(None) => {
                // the session table is full: evict the least recently used
                // session and try again
                assert(self.sess_mgr.present(0));
                let evict_index = match self.sess_mgr.get_lru() {
                    Some(i) => i,
                    None => {
                        return Err(Error::Invalid);
                    },
                };
                proof {
                    assert forall|i: int| old(self).sess_mgr.full() && #[trigger] old(self).sess_mgr.is_lru(i) implies i == evict_index by {
                        lemma_lru_unique(old(self).sess_mgr, i, evict_index as int);
                    }
                }
                match self.evict_session(evict_index) {
                    Ok(()) => {},
                    Err(e) => {
                        return Err(e);
                    },
                }
                let ghost mid = self.sess_mgr;
                proof {
                    assert(mid.is_first_free(evict_index as int)) by {
                        assert forall|j: int| 0 <= j < evict_index implies #[trigger] mid.present(j) by {
                            assert(old(self).sess_mgr.present(j));
                        }
                    }
                    if old(self).sess_mgr.lacks_id(0) {
                        assert forall|j: int| #[trigger] mid.present(j) implies mid.sessions@[j]->Some_0.local_sess_id != 0 by {
                            assert(old(self).sess_mgr.present(j));
                        }
                    }
                }
                match self.sess_mgr.post_recv(rx) {
                    Err(e) => Err(e),
                    Ok(Some(s)) => {
                        proof {
                            if rx.plain.sess_id == 0 && old(self).sess_mgr.lacks_id(0) {
                                assert(s == evict_index);
                                assert(self.sess_mgr.sessions@ =~= old(self).sess_mgr.sessions@.update(
                                    evict_index as int,
                                    Some(session_from(plain_text_data(), old(self).sess_mgr.clock)),
                                ));
                            }
                        }
                        Ok(s)
                    },
                    Ok(None) => Err(Error::Invalid),
                }
            },
        }
    }

    /// Routes an inbound message on session slot `index` (see `routed`).
    fn route(&mut self, index: usize, proto_rx: Packet) -> (r: RecvResult)
        requires
            old(self).wf(),
            old(self).sess_mgr.present(index as int),
        ensures
            final(self).wf(),
            routed(
                proto_rx,
                index as int,
                old(self).sess_mgr.sessions@[index as int]->Some_0.rx_ctr_state,
                old(self).table(),
                r,
                final(self).sess_mgr.sessions@[index as int]->Some_0.rx_ctr_state,
                final(self).table(),
            ),
            final(self).sess_mgr.sessions@ == old(self).sess_mgr.sessions@.update(
                index as int,
                Some(Session {
                    rx_ctr_state: final(self).sess_mgr.sessions@[index as int]->Some_0.rx_ctr_state,
                    ..old(self).sess_mgr.sessions@[index as int]->Some_0
                }),
            ),
            final(self).sess_mgr.clock == old(self).sess_mgr.clock,
            final(self).tx_queue == old(self).tx_queue,
    {
        let session = self.sess_mgr.get_session_handle(index);
        match session.recv(&proto_rx) {
            Ok(()) => {},
            Err(e) => {
                return Err(e);
            },
        }
        let is_initiator = proto_rx.proto.is_initiator();
        let exch_id = proto_rx.proto.exch_id;
        let ghost t0 = self.table();
        let exch = match ExchangeMgr::_get(
            &mut self.exchanges,
            index,
            exch_id,
            get_complementary_role(is_initiator),
            // a new exchange is created only when the peer initiates it
            is_initiator,
        ) {
            Ok(e) => e,
            Err(e) => {
                return Err(e);
            },
        };
        exch.mrp.recv(&proto_rx);
        proof {
            lemma_outcome_wf(t0, index, exch_id, complementary_role_of(is_initiator), is_initiator, *exch);
        }
        if exch.is_state_open() {
            Ok(Some((proto_rx, ExchangeCtx { exch_id, sess_idx: index })))
        } else {
            Ok(None)
        }
    }

    /// Receives a decoded, decrypted message: finds its session (evicting the
    /// least recently used one when the table is full), filters replays through
    /// the session's counter window, finds or creates its exchange, and updates
    /// the exchange's reliability state. The message is handed back with its
    /// exchange and session when the exchange is open; `None` when the
    /// transport layer absorbed it.
    pub fn recv(&mut self, proto_rx: Packet) -> (r: RecvResult)
        requires
            old(self).wf(),
        ensures
            final(self).wf(),
            // a message on an existing session
            forall|i: int| #[trigger] old(self).sess_mgr.is_first_with_id(i, proto_rx.plain.sess_id) ==> ({
                let old_s = old(self).sess_mgr.sessions@[i]->Some_0;
                let new_w = final(self).sess_mgr.sessions@[i]->Some_0.rx_ctr_state;
                &&& routed(proto_rx, i, old_s.rx_ctr_state, old(self).table(), r, new_w, final(self).table())
                &&& final(self).sess_mgr.sessions@ == old(self).sess_mgr.sessions@.update(
                    i,
                    Some(Session { last_use: old(self).sess_mgr.clock, rx_ctr_state: new_w, ..old_s }),
                )
                &&& final(self).tx_queue == old(self).tx_queue
            }),
            // a message on an unknown secure session
            proto_rx.plain.sess_id != 0 && old(self).sess_mgr.lacks_id(proto_rx.plain.sess_id) ==> {
                &&& r == Err::<Option<(Packet, ExchangeCtx)>, Error>(Error::NoSession)
                &&& final(self).table() == old(self).table()
                &&& final(self).sess_mgr == old(self).sess_mgr
                &&& final(self).tx_queue == old(self).tx_queue
            },
            // a plain-text message that gets a new session in a free slot
            forall|i: int| proto_rx.plain.sess_id == 0 && old(self).sess_mgr.lacks_id(0)
                && #[trigger] old(self).sess_mgr.is_first_free(i) ==> ({
                let new_w = final(self).sess_mgr.sessions@[i]->Some_0.rx_ctr_state;
                &&& routed(proto_rx, i, fresh_window(0), old(self).table(), r, new_w, final(self).table())
                &&& final(self).sess_mgr.sessions@ == old(self).sess_mgr.sessions@.update(
                    i,
                    Some(Session { rx_ctr_state: new_w, ..session_from(plain_text_data(), old(self).sess_mgr.clock) }),
                )
                &&& final(self).tx_queue == old(self).tx_queue
            }),
            // a plain-text message when every slot is taken: the least recently
            // used session is evicted and its slot reused
            forall|i: int| proto_rx.plain.sess_id == 0 && old(self).sess_mgr.lacks_id(0) && old(self).sess_mgr.full()
                && #[trigger] old(self).sess_mgr.is_lru(i) ==> ({
                let new_w = final(self).sess_mgr.sessions@[i]->Some_0.rx_ctr_state;
                &&& routed(proto_rx, i, fresh_window(0), without_session(old(self).table(), i as usize), r, new_w, final(self).table())
                &&& final(self).sess_mgr.sessions@ == old(self).sess_mgr.sessions@.update(
                    i,
                    Some(Session { rx_ctr_state: new_w, ..session_from(plain_text_data(), old(self).sess_mgr.clock) }),
                )
            }),
    {
        let index = match self.resolve_session(&proto_rx) {
            Ok(i) => i,
            Err(e) => {
                return Err(e);
            },
        };
        let ghost mid = self.sess_mgr;
        let r = self.route(index, proto_rx);
        proof {
            assert(self.sess_mgr.sessions@ =~= mid.sessions@.update(
                index as int,
                Some(Session {
                    rx_ctr_state: self.sess_mgr.sessions@[index as int]->Some_0.rx_ctr_state,
                    ..mid.sessions@[index as int]->Some_0
                }),
            ));
            assert forall|i: int| #[trigger] old(self).sess_mgr.is_first_with_id(i, proto_rx.plain.sess_id) implies ({
                let old_s = old(self).sess_mgr.sessions@[i]->Some_0;
                let new_w = self.sess_mgr.sessions@[i]->Some_0.rx_ctr_state;
                self.sess_mgr.sessions@ == old(self).sess_mgr.sessions@.update(
                    i,
                    Some(Session { last_use: old(self).sess_mgr.clock, rx_ctr_state: new_w, ..old_s }),
                )
            }) by {
                assert(self.sess_mgr.sessions@ =~= old(self).sess_mgr.sessions@.update(
                    i,
                    Some(Session {
                        last_use: old(self).sess_mgr.clock,
                        rx_ctr_state: self.sess_mgr.sessions@[i]->Some_0.rx_ctr_state,
                        ..old(self).sess_mgr.sessions@[i]->Some_0
                    }),
                ));
            }
            assert forall|i: int| proto_rx.plain.sess_id == 0 && old(self).sess_mgr.lacks_id(0)
                && #[trigger] old(self).sess_mgr.is_first_free(i) implies ({
                let new_w = self.sess_mgr.sessions@[i]->Some_0.rx_ctr_state;
                self.sess_mgr.sessions@ == old(self).sess_mgr.sessions@.update(
                    i,
                    Some(Session { rx_ctr_state: new_w, ..session_from(plain_text_data(), old(self).sess_mgr.clock) }),
                )
            }) by {
                assert(self.sess_mgr.sessions@ =~= old(self).sess_mgr.sessions@.update(
                    i,
                    Some(Session {
                        rx_ctr_state: self.sess_mgr.sessions@[i]->Some_0.rx_ctr_state,
                        ..session_from(plain_text_data(), old(self).sess_mgr.clock)
                    }),
                ));
            }
            assert forall|i: int| proto_rx.plain.sess_id == 0 && old(self).sess_mgr.lacks_id(0) && old(self).sess_mgr.full()
                && #[trigger] old(self).sess_mgr.is_lru(i) implies ({
                let new_w = self.sess_mgr.sessions@[i]->Some_0.rx_ctr_state;
                self.sess_mgr.sessions@ == old(self).sess_mgr.sessions@.update(
                    i,
                    Some(Session { rx_ctr_state: new_w, ..session_from(plain_text_data(), old(self).sess_mgr.clock) }),
                )
            }) by {
                assert(self.sess_mgr.sessions@ =~= old(self).sess_mgr.sessions@.update(
                    i,
                    Some(Session {
                        rx_ctr_state: self.sess_mgr.sessions@[i]->Some_0.rx_ctr_state,
                        ..session_from(plain_text_data(), old(self).sess_mgr.clock)
                    }),
                ));
            }
        }
        r
    }
}

} // verus!
