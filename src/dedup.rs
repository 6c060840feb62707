//! Receive-side replay filter: a high-water mark plus a 16-bit history of the
//! counters just below it.
use vstd::prelude::*;

verus! {

/// Number of counters below `max_ctr` that the history bitmap remembers.
pub const MSG_RX_STATE_BITMAP_LEN: u32 = 16;

/// Per-session receive counter window.
///
/// Bit `i` of `ctr_bitmap` set means that counter `max_ctr - (i + 1)` has been seen.
#[derive(Debug)]
pub struct RxCtrState {
    pub max_ctr: u32,
    pub ctr_bitmap: u16,
}

/// The signed 32-bit difference `msg_ctr - max_ctr`, computed modulo 2^32.
pub open spec fn ctr_delta(msg_ctr: u32, max_ctr: u32) -> int {
    let d = msg_ctr as int - max_ctr as int;
    if d >= 0x8000_0000 {
        d - 0x1_0000_0000
    } else if d < -0x8000_0000 {
        d + 0x1_0000_0000
    } else {
        d
    }
}

/// Whether bit `i` of the history is set.
pub open spec fn has_bit(bitmap: u16, i: u16) -> bool {
    bitmap & (1u16 << i) != 0
}

/// The history with bit `i` set.
pub open spec fn with_bit(bitmap: u16, i: u16) -> u16 {
    bitmap | (1u16 << i)
}

/// A window whose whole history counts as consumed.
pub open spec fn fresh_window(max_ctr: u32) -> RxCtrState {
    RxCtrState { max_ctr, ctr_bitmap: 0xffff }
}

/// The window after receiving `msg_ctr`, and whether the message is a duplicate.
pub open spec fn recv_result(s: RxCtrState, msg_ctr: u32, is_encrypted: bool) -> (RxCtrState, bool) {
    let d = ctr_delta(msg_ctr, s.max_ctr);
    if msg_ctr == s.max_ctr {
        (s, true)
    } else if -16 <= d < 0 {
        let i = (-d - 1) as u16;
        if has_bit(s.ctr_bitmap, i) {
            (s, true)
        } else {
            (RxCtrState { max_ctr: s.max_ctr, ctr_bitmap: with_bit(s.ctr_bitmap, i) }, false)
        }
    } else if msg_ctr > s.max_ctr {
        let k = if d < 0 { -d } else { d };
        if k < 16 {
            let shifted = (s.ctr_bitmap << (k as u16)) as u16;
            (RxCtrState { max_ctr: msg_ctr, ctr_bitmap: with_bit(shifted, (k - 1) as u16) }, false)
        } else {
            (fresh_window(msg_ctr), false)
        }
    } else if !is_encrypted {
        (fresh_window(msg_ctr), false)
    } else {
        (s, true)
    }
}

/// A counter accepted once and then received again at once is reported as a
/// duplicate the second time, whatever either message's encryption.
pub proof fn lemma_repeat_is_duplicate(s: RxCtrState, c: u32, first_encrypted: bool, again_encrypted: bool)
    requires
        !recv_result(s, c, first_encrypted).1,
    ensures
        recv_result(recv_result(s, c, first_encrypted).0, c, again_encrypted).1,
{
    let d = ctr_delta(c, s.max_ctr);
    if c != s.max_ctr && -16 <= d < 0 {
        let i = (-d - 1) as u16;
        let b = s.ctr_bitmap;
        assert((b | (1u16 << i)) & (1u16 << i) != 0) by (bit_vector)
            requires
                i < 16,
        ;
        assert(has_bit(with_bit(b, i), i));
    }
}

/// An encrypted counter more than 16 below `max_ctr` is always a duplicate,
/// and leaves the window as it was.
pub proof fn lemma_old_encrypted_is_duplicate(s: RxCtrState, c: u32)
    requires
        c as int + 16 < s.max_ctr as int,
    ensures
        recv_result(s, c, true) == (s, true),
{
}

/// An unencrypted counter outside the window (neither `max_ctr` nor one of the
/// 16 counters below it) is accepted and becomes the new `max_ctr`.
pub proof fn lemma_unencrypted_outside_window_accepted(s: RxCtrState, c: u32)
    requires
        c != s.max_ctr,
        !(-16 <= ctr_delta(c, s.max_ctr) < 0),
    ensures
        !recv_result(s, c, false).1,
        recv_result(s, c, false).0.max_ctr == c,
{
}

/// On encrypted messages `max_ctr` never decreases.
pub proof fn lemma_encrypted_max_monotone(s: RxCtrState, c: u32)
    ensures
        recv_result(s, c, true).0.max_ctr >= s.max_ctr,
{
}

/// A forward jump of `k < 16` shifts the history left by `k` and marks the old
/// `max_ctr` (bit `k - 1`) as seen.
pub proof fn lemma_forward_jump_shifts(s: RxCtrState, k: u32)
    requires
        0 < k < 16,
        s.max_ctr as int + k as int <= u32::MAX as int,
    ensures
        ({
            let (t, dup) = recv_result(s, (s.max_ctr + k) as u32, true);
            &&& !dup
            &&& t.max_ctr == s.max_ctr + k
            &&& t.ctr_bitmap == ((s.ctr_bitmap << (k as u16)) as u16) | (1u16 << ((k - 1) as u16))
        }),
{
}

/// Counter `c` counts as received by window `s`: it is at most `max_ctr`, and
/// it is `max_ctr`, lies more than 16 below it, or has its history bit set.
pub open spec fn seen(s: RxCtrState, c: u32) -> bool {
    &&& c <= s.max_ctr
    &&& (c == s.max_ctr || s.max_ctr - c > 16 || has_bit(s.ctr_bitmap, (s.max_ctr - c - 1) as u16))
}

/// The window after receiving the encrypted counters `ms` in order.
pub open spec fn recv_all_encrypted(s: RxCtrState, ms: Seq<u32>) -> RxCtrState
    decreases ms.len(),
{
    if ms.len() == 0 {
        s
    } else {
        recv_all_encrypted(recv_result(s, ms[0], true).0, ms.drop_first())
    }
}

proof fn lemma_bit_kept_by_or(b: u16, i: u16, j: u16)
    by (bit_vector)
    requires
        i < 16,
        j < 16,
    ensures
        b & (1u16 << i) != 0 ==> (b | (1u16 << j)) & (1u16 << i) != 0,
{
}

proof fn lemma_bit_kept_by_shift(b: u16, i: u16, k: u16)
    by (bit_vector)
    requires
        0 < k,
        i + k < 16,
    ensures
        b & (1u16 << i) != 0 ==> ((((b << k) as u16) | (1u16 << ((k - 1) as u16))) & (1u16 << ((i + k) as u16))) != 0,
        ((((b << k) as u16) | (1u16 << ((k - 1) as u16))) & (1u16 << ((k - 1) as u16))) != 0,
{
}

proof fn lemma_full_bitmap(i: u16)
    by (bit_vector)
    requires
        i < 16,
    ensures
        0xffffu16 & (1u16 << i) != 0,
{
}

/// A seen counter is a duplicate when it comes encrypted.
proof fn lemma_seen_is_duplicate(s: RxCtrState, c: u32)
    requires
        seen(s, c),
    ensures
        recv_result(s, c, true) == (s, true),
{
}

/// A seen counter stays seen across any encrypted receive.
proof fn lemma_seen_kept(s: RxCtrState, c: u32, m: u32)
    requires
        seen(s, c),
    ensures
        seen(recv_result(s, m, true).0, c),
{
    let d = ctr_delta(m, s.max_ctr);
    let t = recv_result(s, m, true).0;
    let b = s.ctr_bitmap;
    if m != s.max_ctr && -16 <= d < 0 {
        if c != s.max_ctr && s.max_ctr - c <= 16 {
            lemma_bit_kept_by_or(b, (s.max_ctr - c - 1) as u16, (-d - 1) as u16);
        }
    } else if m > s.max_ctr {
        let k = if d < 0 { -d } else { d };
        if k < 16 {
            assert(k == m - s.max_ctr);
            if c == s.max_ctr {
                lemma_bit_kept_by_shift(b, 0, k as u16);
            } else if s.max_ctr - c <= 16 && m - c <= 16 {
                lemma_bit_kept_by_shift(b, (s.max_ctr - c - 1) as u16, k as u16);
                assert((s.max_ctr - c - 1) + k == m - c - 1);
            }
        } else {
            if m - c <= 16 {
                lemma_full_bitmap((m - c - 1) as u16);
            }
        }
    }
}

proof fn lemma_seen_kept_all(s: RxCtrState, c: u32, ms: Seq<u32>)
    requires
        seen(s, c),
    ensures
        seen(recv_all_encrypted(s, ms), c),
    decreases ms.len(),
{
    if ms.len() > 0 {
        lemma_seen_kept(s, c, ms[0]);
        lemma_seen_kept_all(recv_result(s, ms[0], true).0, c, ms.drop_first());
    }
}

/// A counter accepted once, and not above the new `max_ctr` (that is, not
/// taken from just below the 2^32 wrap while `max_ctr` is small), is reported
/// as a duplicate when it comes again encrypted, whatever encrypted counters
/// were received in between.
pub proof fn lemma_accepted_stays_duplicate(s: RxCtrState, c: u32, first_encrypted: bool, between: Seq<u32>)
    requires
        !recv_result(s, c, first_encrypted).1,
        c <= recv_result(s, c, first_encrypted).0.max_ctr,
    ensures
        recv_result(recv_all_encrypted(recv_result(s, c, first_encrypted).0, between), c, true).1,
{
    let t = recv_result(s, c, first_encrypted).0;
    let d = ctr_delta(c, s.max_ctr);
    if c != s.max_ctr && -16 <= d < 0 {
        let i = (-d - 1) as u16;
        let b = s.ctr_bitmap;
        assert((b | (1u16 << i)) & (1u16 << i) != 0) by (bit_vector)
            requires
                i < 16,
        ;
    }
    assert(seen(t, c));
    lemma_seen_kept_all(t, c, between);
    lemma_seen_is_duplicate(recv_all_encrypted(t, between), c);
}

impl RxCtrState {
    /// A window at `max_ctr` with every earlier counter treated as seen.
    pub fn new(max_ctr: u32) -> (s: Self)
        ensures
            s == fresh_window(max_ctr),
    {
        RxCtrState { max_ctr, ctr_bitmap: 0xffff }
    }

    /// Whether bit `bit_number` of the history is set.
    pub fn contains(&self, bit_number: u32) -> (r: bool)
        requires
            bit_number < MSG_RX_STATE_BITMAP_LEN,
        ensures
            r == has_bit(self.ctr_bitmap, bit_number as u16),
    {
        (self.ctr_bitmap & (1u16 << (bit_number as u16))) != 0
    }

    /// Marks bit `bit_number` of the history as seen.
    pub fn insert(&mut self, bit_number: u32)
        requires
            bit_number < MSG_RX_STATE_BITMAP_LEN,
        ensures
            final(self).max_ctr == old(self).max_ctr,
            final(self).ctr_bitmap == with_bit(old(self).ctr_bitmap, bit_number as u16),
    {
        self.ctr_bitmap = self.ctr_bitmap | (1u16 << (bit_number as u16));
    }

    /// Receives a message counter and updates the window; returns whether the
    /// message is a duplicate that must be dropped.
    pub fn recv(&mut self, msg_ctr: u32, is_encrypted: bool) -> (dup: bool)
        ensures
            (*final(self), dup) == recv_result(*old(self), msg_ctr, is_encrypted),
    {
        // `fwd` is `msg_ctr - max_ctr` modulo 2^32
        let fwd: u32 = if msg_ctr >= self.max_ctr {
            msg_ctr - self.max_ctr
        } else {
            (0xffff_ffffu32 - self.max_ctr) + msg_ctr + 1
        };
        // magnitude of the signed difference
        let udiff: u32 = if fwd < 0x8000_0000 {
            fwd
        } else {
            (0xffff_ffffu32 - fwd) + 1
        };
        if msg_ctr == self.max_ctr {
            true
        } else if fwd >= 0xffff_fff0 {
            // inside the history window
            let index = udiff - 1;
            if self.contains(index) {
                true
            } else {
                self.insert(index);
                false
            }
        } else if msg_ctr > self.max_ctr {
            self.max_ctr = msg_ctr;
            if udiff < MSG_RX_STATE_BITMAP_LEN {
                // the previous max_ctr becomes a seen counter of the history
                self.ctr_bitmap = self.ctr_bitmap << (udiff as u16);
                self.insert(udiff - 1);
            } else {
                self.ctr_bitmap = 0xffff;
            }
            false
        } else if !is_encrypted {
            // the peer probably rebooted and picked a new counter
            self.max_ctr = msg_ctr;
            self.ctr_bitmap = 0xffff;
            false
        } else {
            true
        }
    }
}

} // verus!
