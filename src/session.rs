//! Session table: a fixed number of session slots, least-recently-used
//! eviction order, and one receive counter window per session.
use vstd::prelude::*;
use crate::dedup::{recv_result, RxCtrState};
use crate::error::Error;
use crate::packet::Packet;

verus! {

/// Number of session slots.
pub const MAX_SESSIONS: usize = 16;

#[derive(Debug, Clone, Copy, PartialEq, Eq, Structural)]
pub enum SessionMode {
    PlainText,
    Pase,
    Case,
}

/// What a completed handshake hands over to create a session.
#[derive(Debug, Clone, Copy, PartialEq, Eq, Structural)]
pub struct CloneData {
    pub local_nodeid: u64,
    pub peer_nodeid: u64,
    pub peer_sess_id: u16,
    pub local_sess_id: u16,
    pub mode: SessionMode,
}

impl CloneData {
    pub fn new(
        local_nodeid: u64,
        peer_nodeid: u64,
        peer_sess_id: u16,
        local_sess_id: u16,
        mode: SessionMode,
    ) -> (r: CloneData)
        ensures
            r == (CloneData { local_nodeid, peer_nodeid, peer_sess_id, local_sess_id, mode }),
    {
        CloneData { local_nodeid, peer_nodeid, peer_sess_id, local_sess_id, mode }
    }
}

#[derive(Debug)]
pub struct Session {
    pub local_nodeid: u64,
    pub peer_nodeid: u64,
    pub local_sess_id: u16,
    pub peer_sess_id: u16,
    pub mode: SessionMode,
    pub rx_ctr_state: RxCtrState,
    pub tx_ctr: u32,
    /// Logical time of the last use; the smallest is the least recently used.
    pub last_use: u64,
}

/// The session that `clone_data` describes, created at logical time `t`.
pub open spec fn session_from(d: CloneData, t: u64) -> Session {
    Session {
        local_nodeid: d.local_nodeid,
        peer_nodeid: d.peer_nodeid,
        local_sess_id: d.local_sess_id,
        peer_sess_id: d.peer_sess_id,
        mode: d.mode,
        rx_ctr_state: RxCtrState { max_ctr: 0, ctr_bitmap: 0xffff },
        tx_ctr: 1,
        last_use: t,
    }
}

/// What a plain-text session is made from.
pub open spec fn plain_text_data() -> CloneData {
    CloneData { local_nodeid: 0, peer_nodeid: 0, peer_sess_id: 0, local_sess_id: 0, mode: SessionMode::PlainText }
}

/// The counter that follows `c`, modulo 2^32.
pub open spec fn next_ctr(c: u32) -> u32 {
    if c == u32::MAX { 0 } else { (c + 1) as u32 }
}

impl Session {
    pub fn get_peer_sess_id(&self) -> (r: u16)
        ensures
            r == self.peer_sess_id,
    {
        self.peer_sess_id
    }

    pub fn get_local_sess_id(&self) -> (r: u16)
        ensures
            r == self.local_sess_id,
    {
        self.local_sess_id
    }

    /// Stamps an outbound message with the peer's session id and the next
    /// transmit counter.
    pub fn pre_send(&mut self, tx: &mut Packet)
        ensures
            final(tx).plain.sess_id == old(self).peer_sess_id,
            final(tx).plain.ctr == old(self).tx_ctr,
            final(tx).plain.is_encrypted == (old(self).mode != SessionMode::PlainText),
            final(tx).proto == old(tx).proto,
            final(tx).payload == old(tx).payload,
            *final(self) == (Session { tx_ctr: next_ctr(old(self).tx_ctr), ..*old(self) }),
    {
        tx.plain.sess_id = self.peer_sess_id;
        tx.plain.ctr = self.tx_ctr;
        tx.plain.is_encrypted = self.mode != SessionMode::PlainText;
        self.tx_ctr = if self.tx_ctr == u32::MAX { 0 } else { self.tx_ctr + 1 };
    }

    /// Runs an inbound message's counter through the session's window; a
    /// duplicate is refused.
    pub fn recv(&mut self, rx: &Packet) -> (r: Result<(), Error>)
        ensures
            *final(self) == (Session {
                rx_ctr_state: recv_result(old(self).rx_ctr_state, rx.plain.ctr, rx.plain.is_encrypted).0,
                ..*old(self)
            }),
            r == if recv_result(old(self).rx_ctr_state, rx.plain.ctr, rx.plain.is_encrypted).1 {
                Err::<(), Error>(Error::Duplicate)
            } else {
                Ok(())
            },
    {
        if self.rx_ctr_state.recv(rx.plain.ctr, rx.plain.is_encrypted) {
            Err(Error::Duplicate)
        } else {
            Ok(())
        }
    }
}

pub struct SessionMgr {
    pub sessions: Vec<Option<Session>>,
    /// Logical clock that stamps each use of a session.
    pub clock: u64,
}

/// At most one slot is the first free one.
pub proof fn lemma_first_free_unique(sm: SessionMgr, i: int, j: int)
    requires
        sm.is_first_free(i),
        sm.is_first_free(j),
    ensures
        i == j,
{
    if i < j {
        assert(sm.present(i));
    } else if j < i {
        assert(sm.present(j));
    }
}

/// At most one slot is the least recently used one.
pub proof fn lemma_lru_unique(sm: SessionMgr, i: int, j: int)
    requires
        sm.is_lru(i),
        sm.is_lru(j),
    ensures
        i == j,
{
    assert(sm.present(i) && sm.present(j));
}

impl SessionMgr {
    pub open spec fn wf(&self) -> bool {
        self.sessions@.len() == MAX_SESSIONS
    }

    /// Slot `i` holds a session.
    pub open spec fn present(&self, i: int) -> bool {
        0 <= i < self.sessions@.len() && self.sessions@[i] is Some
    }

    /// Every slot holds a session.
    pub open spec fn full(&self) -> bool {
        forall|i: int| 0 <= i < self.sessions@.len() ==> #[trigger] self.present(i)
    }

    /// Slot `i` holds the first session whose local id is `id`.
    pub open spec fn is_first_with_id(&self, i: int, id: u16) -> bool {
        &&& self.present(i)
        &&& self.sessions@[i]->Some_0.local_sess_id == id
        &&& forall|j: int| 0 <= j < i && #[trigger] self.present(j) ==> self.sessions@[j]->Some_0.local_sess_id != id
    }

    /// Slot `i` is the first free slot.
    pub open spec fn is_first_free(&self, i: int) -> bool {
        &&& 0 <= i < self.sessions@.len()
        &&& !self.present(i)
        &&& forall|j: int| 0 <= j < i ==> #[trigger] self.present(j)
    }

    /// Slot `i` holds the least recently used session, the first on a tie.
    pub open spec fn is_lru(&self, i: int) -> bool {
        &&& self.present(i)
        &&& forall|j: int| #[trigger] self.present(j)
            ==> self.sessions@[i]->Some_0.last_use <= self.sessions@[j]->Some_0.last_use
        &&& forall|j: int| 0 <= j < i && #[trigger] self.present(j)
            ==> self.sessions@[i]->Some_0.last_use < self.sessions@[j]->Some_0.last_use
    }

    /// No session has local id `id`.
    pub open spec fn lacks_id(&self, id: u16) -> bool {
        forall|j: int| #[trigger] self.present(j) ==> self.sessions@[j]->Some_0.local_sess_id != id
    }

    pub open spec fn next_clock(&self) -> u64 {
        if self.clock == u64::MAX { self.clock } else { (self.clock + 1) as u64 }
    }

    pub fn new() -> (r: Self)
        ensures
            r.wf(),
            forall|i: int| !(#[trigger] r.present(i)),
    {
        let mut sessions: Vec<Option<Session>> = Vec::new();
        let mut n: usize = 0;
        while n < MAX_SESSIONS
            invariant
                n <= MAX_SESSIONS,
                sessions@.len() == n,
                forall|i: int| 0 <= i < n ==> sessions@[i] is None,
            decreases MAX_SESSIONS - n,
        {
            sessions.push(None);
            n = n + 1;
        }
        SessionMgr { sessions, clock: 0 }
    }

    fn tick(&mut self) -> (t: u64)
        ensures
            t == old(self).clock,
            final(self).clock == old(self).next_clock(),
            final(self).sessions == old(self).sessions,
    {
        let t = self.clock;
        if self.clock < u64::MAX {
            self.clock = self.clock + 1;
        }
        t
    }

    /// Index of the first free slot, if any.
    fn first_free(&self) -> (r: Option<usize>)
        requires
            self.wf(),
        ensures
            r is None ==> self.full(),
            r matches Some(i) ==> i < MAX_SESSIONS && !self.present(i as int) && forall|j: int|
                0 <= j < i ==> #[trigger] self.present(j),
    {
        let mut i: usize = 0;
        while i < MAX_SESSIONS
            invariant
                self.wf(),
                i <= MAX_SESSIONS,
                forall|j: int| 0 <= j < i ==> #[trigger] self.present(j),
            decreases MAX_SESSIONS - i,
        {
            if self.sessions[i].is_none() {
                return Some(i);
            }
            i = i + 1;
        }
        None
    }

    /// Creates a session in the first free slot; `NoSpace` when every slot is taken.
    pub fn clone_session(&mut self, clone_data: &CloneData) -> (r: Result<usize, Error>)
        requires
            old(self).wf(),
        ensures
            final(self).wf(),
            r is Err <==> old(self).full(),
            r matches Err(e) ==> e == Error::NoSpace && *final(self) == *old(self),
            r matches Ok(i) ==> {
                &&& i < MAX_SESSIONS
                &&& !old(self).present(i as int)
                &&& forall|j: int| 0 <= j < i ==> #[trigger] old(self).present(j)
                &&& final(self).sessions@ == old(self).sessions@.update(
                    i as int,
                    Some(session_from(*clone_data, old(self).clock)),
                )
                &&& final(self).clock == old(self).next_clock()
            },
    {
        match self.first_free() {
            None => Err(Error::NoSpace),
            Some(i) => {
                let t = self.tick();
                let s = Session {
                    local_nodeid: clone_data.local_nodeid,
                    peer_nodeid: clone_data.peer_nodeid,
                    local_sess_id: clone_data.local_sess_id,
                    peer_sess_id: clone_data.peer_sess_id,
                    mode: clone_data.mode,
                    rx_ctr_state: RxCtrState::new(0),
                    tx_ctr: 1,
                    last_use: t,
                };
                self.sessions.set(i, Some(s));
                Ok(i)
            },
        }
    }

    /// The least recently used session: the present one with the smallest
    /// `last_use`, the first of them on a tie; `None` when the table is empty.
    pub fn get_lru(&self) -> (r: Option<usize>)
        requires
            self.wf(),
        ensures
            r is None <==> forall|i: int| !(#[trigger] self.present(i)),
            r matches Some(i) ==> self.is_lru(i as int),
    {
        let mut best: Option<usize> = None;
        let mut best_use: u64 = 0;
        let mut i: usize = 0;
        while i < MAX_SESSIONS
            invariant
                self.wf(),
                i <= MAX_SESSIONS,
                best is None <==> forall|j: int| 0 <= j < i ==> !(#[trigger] self.present(j)),
                best matches Some(b) ==> b < i && self.present(b as int)
                    && self.sessions@[b as int]->Some_0.last_use == best_use
                    && (forall|j: int| 0 <= j < i && #[trigger] self.present(j)
                        ==> best_use <= self.sessions@[j]->Some_0.last_use)
                    && (forall|j: int| 0 <= j < b && #[trigger] self.present(j)
                        ==> best_use < self.sessions@[j]->Some_0.last_use),
            decreases MAX_SESSIONS - i,
        {
            if let Some(s) = &self.sessions[i] {
                if best.is_none() || s.last_use < best_use {
                    best = Some(i);
                    best_use = s.last_use;
                }
            }
            proof {
                if let Some(b) = best {
                    assert(self.present(b as int));
                }
            }
            i = i + 1;
        }
        proof {
            if let Some(b) = best {
                assert(self.present(b as int));
            }
        }
        best
    }

    /// Index of the session with local id `local_sess_id`, the first if several.
    pub fn get_with_id(&self, local_sess_id: u16) -> (r: Option<usize>)
        requires
            self.wf(),
        ensures
            r is None ==> forall|i: int| #[trigger] self.present(i)
                ==> self.sessions@[i]->Some_0.local_sess_id != local_sess_id,
            r matches Some(i) ==> self.is_first_with_id(i as int, local_sess_id),
    {
        let mut i: usize = 0;
        while i < MAX_SESSIONS
            invariant
                self.wf(),
                i <= MAX_SESSIONS,
                forall|j: int| 0 <= j < i && #[trigger] self.present(j)
                    ==> self.sessions@[j]->Some_0.local_sess_id != local_sess_id,
            decreases MAX_SESSIONS - i,
        {
            if let Some(s) = &self.sessions[i] {
                if s.local_sess_id == local_sess_id {
                    return Some(i);
                }
            }
            i = i + 1;
        }
        None
    }

    /// Exclusive access to the session in slot `index`.
    pub fn get_session_handle(&mut self, index: usize) -> (r: &mut Session)
        requires
            old(self).wf(),
            old(self).present(index as int),
        ensures
            *r == old(self).sessions@[index as int]->Some_0,
            final(self).sessions@ == old(self).sessions@.update(index as int, Some(*final(r))),
            final(self).clock == old(self).clock,
    {
        self.sessions[index].as_mut().unwrap()
    }

    /// Marks the session in slot `index` as used now.
    fn touch(&mut self, index: usize)
        requires
            old(self).wf(),
            old(self).present(index as int),
        ensures
            final(self).wf(),
            final(self).sessions@ == old(self).sessions@.update(
                index as int,
                Some(Session { last_use: old(self).clock, ..old(self).sessions@[index as int]->Some_0 }),
            ),
            final(self).clock == old(self).next_clock(),
    {
        let t = self.tick();
        let s = self.get_session_handle(index);
        s.last_use = t;
    }

    /// Finds the session that an inbound message belongs to. A message on the
    /// unsecured session id 0 gets a plain-text session, created if needed;
    /// `Ok(None)` means no slot was free for it. An unknown secure session id
    /// is `NoSession`.
    pub fn post_recv(&mut self, rx: &Packet) -> (r: Result<Option<usize>, Error>)
        requires
            old(self).wf(),
        ensures
            final(self).wf(),
            r matches Ok(Some(i)) ==> {
                &&& final(self).present(i as int)
                &&& final(self).sessions@[i as int]->Some_0.local_sess_id == rx.plain.sess_id
                &&& forall|j: int| 0 <= j < MAX_SESSIONS && j != i ==> final(self).sessions@[j] == old(self).sessions@[j]
            },
            r matches Ok(None) ==> rx.plain.sess_id == 0 && old(self).full() && *final(self) == *old(self),
            forall|i: int| rx.plain.sess_id == 0 && old(self).lacks_id(0) && #[trigger] old(self).is_first_free(i) ==> ({
                &&& r == Ok::<Option<usize>, Error>(Some(i as usize))
                &&& final(self).sessions@ == old(self).sessions@.update(i, Some(session_from(plain_text_data(), old(self).clock)))
                &&& final(self).clock == old(self).next_clock()
            }),
            forall|i: int| #[trigger] old(self).is_first_with_id(i, rx.plain.sess_id) ==> final(self).clock == old(self).next_clock(),
            r matches Err(e) ==> e == Error::NoSession && rx.plain.sess_id != 0 && *final(self) == *old(self),
            rx.plain.sess_id == 0 ==> r is Ok,
            rx.plain.sess_id != 0 && old(self).lacks_id(rx.plain.sess_id) ==> r == Err::<Option<usize>, Error>(Error::NoSession),
            rx.plain.sess_id == 0 && old(self).lacks_id(0) && old(self).full() ==> r == Ok::<Option<usize>, Error>(None),
            rx.plain.sess_id == 0 && !old(self).full() ==> r matches Ok(Some(_)),
            (exists|i: int| #[trigger] old(self).present(i) && old(self).sessions@[i]->Some_0.local_sess_id == rx.plain.sess_id)
                ==> r matches Ok(Some(_)),
            forall|i: int| #[trigger] old(self).is_first_with_id(i, rx.plain.sess_id) ==> ({
                &&& r == Ok::<Option<usize>, Error>(Some(i as usize))
                &&& final(self).sessions@[i] == Some(Session { last_use: old(self).clock, ..old(self).sessions@[i]->Some_0 })
            }),
    {
        match self.get_with_id(rx.plain.sess_id) {
            Some(i) => {
                self.touch(i);
                Ok(Some(i))
            },
            None => {
                if rx.plain.sess_id != 0 {
                    Err(Error::NoSession)
                } else {
                    let plain = CloneData::new(0, 0, 0, 0, SessionMode::PlainText);
                    match self.clone_session(&plain) {
                        Ok(i) => Ok(Some(i)),
                        Err(_) => Ok(None),
                    }
                }
            },
        }
    }

    /// Drops the session in slot `index`.
    pub fn remove(&mut self, index: usize)
        requires
            old(self).wf(),
            index < MAX_SESSIONS,
        ensures
            final(self).wf(),
            final(self).sessions@ == old(self).sessions@.update(index as int, None),
            final(self).clock == old(self).clock,
    {
        self.sessions.set(index, None);
    }
}

} // verus!
