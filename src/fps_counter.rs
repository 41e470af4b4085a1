use vstd::prelude::*;

verus! {

/// Nanoseconds in one second: the length of one measurement window.
pub const NANOS_PER_SEC: u64 = 1_000_000_000;

/// Number of completed windows that the counter remembers.
pub const WINDOW_SLOTS: usize = 5;

/// The one way to misconfigure a counter.
#[derive(Debug, Clone, Copy, PartialEq, Eq, Structural)]
pub enum FpsError {
    /// A target rate of zero frames per second has no frame period.
    InvalidTargetRate,
}

/// Time from `from` to `to` in nanoseconds; a clock that went backwards counts as no time.
pub open spec fn elapsed(from: u64, to: u64) -> nat {
    if to >= from {
        (to - from) as nat
    } else {
        0
    }
}

/// Length of one frame, in whole nanoseconds, at `target_fps` frames per second.
pub open spec fn frame_period(target_fps: nat) -> nat
    recommends
        target_fps > 0,
{
    NANOS_PER_SEC as nat / target_fps
}

/// Point within the current window at which the next frame is due, when
/// `frame_count` frames have been counted in it: two frames ahead of the count.
pub open spec fn designated_time(frame_nanos: nat, frame_count: nat) -> nat {
    frame_nanos * (frame_count + 2)
}

/// How long a frame that starts `since_window` nanoseconds into its window waits.
pub open spec fn pacing_delay(frame_nanos: nat, frame_count: nat, since_window: nat, limited: bool) -> nat {
    let due = designated_time(frame_nanos, frame_count);
    if limited && due > since_window {
        (due - since_window) as nat
    } else {
        0
    }
}

/// Contents of the ring of window counts once the windows of `history` have
/// closed, oldest first: each closed window overwrites the next slot in turn.
pub open spec fn ring_of(history: Seq<u64>) -> Seq<u64>
    decreases history.len(),
{
    if history.len() == 0 {
        seq![0u64, 0u64, 0u64, 0u64, 0u64]
    } else {
        ring_of(history.drop_last()).update(
            (history.len() - 1) % (WINDOW_SLOTS as int),
            history.last(),
        )
    }
}

/// Sum of a sequence of counts.
pub open spec fn seq_sum(s: Seq<u64>) -> int
    decreases s.len(),
{
    if s.len() == 0 {
        0
    } else {
        seq_sum(s.drop_last()) + s.last()
    }
}

/// The counts of the last (at most) five closed windows.
pub open spec fn recent_windows(history: Seq<u64>) -> Seq<u64> {
    if history.len() >= WINDOW_SLOTS {
        history.subrange(history.len() - WINDOW_SLOTS, history.len() as int)
    } else {
        history
    }
}

/// The ring always has one slot per remembered window.
pub proof fn lemma_ring_len(history: Seq<u64>)
    ensures
        ring_of(history).len() == WINDOW_SLOTS,
    decreases history.len(),
{
    if history.len() > 0 {
        lemma_ring_len(history.drop_last());
    }
}

/// What a counter is, abstractly.
pub ghost struct FpsCounterView {
    pub target_fps: nat,
    pub frame_nanos: nat,
    pub frame_count: nat,
    pub last_frame_time: u64,
    pub window_start: u64,
    pub ring: Seq<u64>,
    pub next_slot: nat,
    pub delta_time: nat,
    /// The frame counts of every window closed so far, in order.
    pub history: Seq<u64>,
}

/// Paces a render loop to a target rate and measures the achieved rate over
/// one-second windows. Times are nanoseconds on a monotonic clock chosen by
/// the caller.
pub struct FpsCounter {
    target_fps: usize,
    frame_nanos: u64,
    frame_count: u64,
    last_frame_time: u64,
    last_fps_update: u64,
    average_fps: Vec<u64>,
    last_index: usize,
    delta_time: u64,
    history: Ghost<Seq<u64>>,
}

impl View for FpsCounter {
    type V = FpsCounterView;

    closed spec fn view(&self) -> FpsCounterView {
        FpsCounterView {
            target_fps: self.target_fps as nat,
            frame_nanos: self.frame_nanos as nat,
            frame_count: self.frame_count as nat,
            last_frame_time: self.last_frame_time,
            window_start: self.last_fps_update,
            ring: self.average_fps@,
            next_slot: self.last_index as nat,
            delta_time: self.delta_time as nat,
            history: self.history@,
        }
    }
}

impl FpsCounter {
    /// The counter's invariant: a positive rate, its period, and a ring that
    /// holds what the closed windows left in it, written in turn.
    pub open spec fn wf(&self) -> bool {
        &&& self@.target_fps > 0
        &&& self@.frame_nanos == frame_period(self@.target_fps)
        &&& self@.ring == ring_of(self@.history)
        &&& self@.next_slot == self@.history.len() % (WINDOW_SLOTS as nat)
    }

    /// A counter whose clock starts at `now`, with every count at zero.
    pub fn new(target_fps: usize, now: u64) -> (r: Result<FpsCounter, FpsError>)
        ensures
            target_fps == 0 <==> r is Err,
            r is Err ==> r->Err_0 == FpsError::InvalidTargetRate,
            r matches Ok(c) ==> {
                &&& c.wf()
                &&& c@.target_fps == target_fps
                &&& c@.frame_count == 0
                &&& c@.last_frame_time == now
                &&& c@.window_start == now
                &&& c@.delta_time == 0
                &&& c@.history.len() == 0
            },
    {
        if target_fps == 0 {
            return Err(FpsError::InvalidTargetRate);
        }
        let frame_nanos: u64 = NANOS_PER_SEC / (target_fps as u64);
        let c = FpsCounter {
            target_fps,
            frame_nanos,
            frame_count: 0,
            last_frame_time: now,
            last_fps_update: now,
            average_fps: vec![0u64, 0u64, 0u64, 0u64, 0u64],
            last_index: 0,
            delta_time: 0,
            history: Ghost(Seq::empty()),
        };
        assert(c.average_fps@ =~= ring_of(Seq::empty()));
        Ok(c)
    }

    /// How long a frame that begins at `now` is to wait before it is
    /// presented. Unlimited frames never wait; a limited one waits until two
    /// frames past the count of the current window are due.
    pub fn frame_sleep(&self, now: u64, is_limited: bool) -> (r: u128)
        requires
            self.wf(),
        ensures
            r == pacing_delay(self@.frame_nanos, self@.frame_count, elapsed(self@.window_start, now), is_limited),
            !is_limited ==> r == 0,
    {
        let since_window: u64 = if now >= self.last_fps_update {
            now - self.last_fps_update
        } else {
            0
        };
        assert(self.frame_nanos <= NANOS_PER_SEC) by {
            assert(self@.target_fps >= 1);
            assert(NANOS_PER_SEC as nat / self@.target_fps <= NANOS_PER_SEC as nat);
        }
        let fc: u128 = self.frame_count as u128 + 2;
        assert((self.frame_nanos as u128) * fc <= (NANOS_PER_SEC as int) * (u64::MAX as int + 2)) by (nonlinear_arith)
            requires
                self.frame_nanos <= NANOS_PER_SEC,
                fc <= u64::MAX as int + 2,
        ;
        let due: u128 = (self.frame_nanos as u128) * fc;
        if is_limited && due > since_window as u128 {
            due - since_window as u128
        } else {
            0
        }
    }

    /// Counts one frame that began at `started` and, after any pacing wait,
    /// was done at `finished`. The time since the previous frame becomes the
    /// delta. When the window had lasted a second or more at `started`, its
    /// count goes into the next slot of the ring and a new window opens at
    /// `finished`.
    pub fn frame(&mut self, started: u64, finished: u64)
        requires
            old(self).wf(),
        ensures
            final(self).wf(),
            final(self)@.target_fps == old(self)@.target_fps,
            final(self)@.delta_time == elapsed(old(self)@.last_frame_time, started),
            final(self)@.last_frame_time == finished,
            ({
                let count = if old(self)@.frame_count < u64::MAX { old(self)@.frame_count + 1 } else { old(self)@.frame_count };
                if elapsed(old(self)@.window_start, started) >= NANOS_PER_SEC {
                    &&& final(self)@.history == old(self)@.history.push(count as u64)
                    &&& final(self)@.frame_count == 0
                    &&& final(self)@.window_start == finished
                } else {
                    &&& final(self)@.history == old(self)@.history
                    &&& final(self)@.frame_count == count
                    &&& final(self)@.window_start == old(self)@.window_start
                }
            }),
    {
        self.delta_time = if started >= self.last_frame_time {
            started - self.last_frame_time
        } else {
            0
        };
        let since_window: u64 = if started >= self.last_fps_update {
            started - self.last_fps_update
        } else {
            0
        };
        self.last_frame_time = finished;
        if self.frame_count < u64::MAX {
            self.frame_count = self.frame_count + 1;
        }
        proof {
            lemma_ring_len(self.history@);
        }
        if since_window >= NANOS_PER_SEC {
            let count = self.frame_count;
            let slot = self.last_index;
            proof {
                let h = self.history@.push(count);
                assert(h.drop_last() =~= self.history@);
            }
            self.average_fps.set(slot, count);
            self.last_index = (slot + 1) % WINDOW_SLOTS;
            self.frame_count = 0;
            self.last_fps_update = finished;
            self.history = Ghost(self.history@.push(count));
        }
    }

    /// Changes the target rate, keeping the window and the ring as they are.
    /// A rate of zero is refused and leaves the counter unchanged.
    pub fn set_target_fps(&mut self, target_fps: usize) -> (r: Result<(), FpsError>)
        requires
            old(self).wf(),
        ensures
            final(self).wf(),
            target_fps == 0 <==> r is Err,
            r is Err ==> r->Err_0 == FpsError::InvalidTargetRate && final(self)@ == old(self)@,
            r is Ok ==> final(self)@ == (FpsCounterView {
                target_fps: target_fps as nat,
                frame_nanos: frame_period(target_fps as nat),
                ..old(self)@
            }),
    {
        if target_fps == 0 {
            return Err(FpsError::InvalidTargetRate);
        }
        self.target_fps = target_fps;
        self.frame_nanos = NANOS_PER_SEC / (target_fps as u64);
        Ok(())
    }

    /// Time between the starts of the last two counted frames, in nanoseconds.
    pub fn delta_time(&self) -> (r: u64)
        ensures
            r == self@.delta_time,
    {
        self.delta_time
    }

    /// Sum of the five ring slots, unfilled slots counting as zero.
    pub fn fps_sum(&self) -> (r: u128)
        requires
            self.wf(),
        ensures
            r == seq_sum(self@.ring),
    {
        proof {
            lemma_ring_len(self.history@);
        }
        let mut sum: u128 = 0;
        let mut i: usize = 0;
        while i < WINDOW_SLOTS
            invariant
                self.wf(),
                i <= WINDOW_SLOTS,
                self.average_fps@.len() == WINDOW_SLOTS,
                sum == seq_sum(self.average_fps@.subrange(0, i as int)),
                sum <= i * (u64::MAX as int),
            decreases WINDOW_SLOTS - i,
        {
            proof {
                let s = self.average_fps@.subrange(0, i + 1);
                assert(s.drop_last() =~= self.average_fps@.subrange(0, i as int));
            }
            sum = sum + self.average_fps[i] as u128;
            i = i + 1;
        }
        assert(self.average_fps@.subrange(0, WINDOW_SLOTS as int) =~= self.average_fps@);
        sum
    }

    /// The five ring slots, in slot order.
    pub fn recent_fps(&self) -> (r: Vec<u64>)
        ensures
            r@ == self@.ring,
    {
        self.average_fps.clone()
    }
}


/// The count that slot `j` holds once the windows of `history` have closed:
/// that of the latest window written to slot `j`, among the last five, or
/// zero when no window has reached it yet.
pub open spec fn window_slot(history: Seq<u64>, j: int) -> u64 {
    let k = history.len() - 1 - (history.len() - 1 - j) % (WINDOW_SLOTS as int);
    if k >= 0 {
        history[k]
    } else {
        0
    }
}

proof fn lemma_sum_update(s: Seq<u64>, i: int, v: u64)
    requires
        0 <= i < s.len(),
    ensures
        seq_sum(s.update(i, v)) == seq_sum(s) - s[i] + v,
    decreases s.len(),
{
    if i == s.len() - 1 {
        assert(s.update(i, v).drop_last() =~= s.drop_last());
    } else {
        assert(s.update(i, v).drop_last() =~= s.drop_last().update(i, v));
        lemma_sum_update(s.drop_last(), i, v);
    }
}

proof fn lemma_sum_front(s: Seq<u64>)
    requires
        s.len() > 0,
    ensures
        seq_sum(s) == s[0] + seq_sum(s.subrange(1, s.len() as int)),
    decreases s.len(),
{
    if s.len() > 1 {
        let rest = s.subrange(1, s.len() as int);
        lemma_sum_front(s.drop_last());
        assert(rest.drop_last() =~= s.drop_last().subrange(1, s.len() - 1));
        assert(seq_sum(rest) == seq_sum(rest.drop_last()) + s.last());
    } else {
        assert(s.subrange(1, s.len() as int) =~= Seq::<u64>::empty());
        assert(s.drop_last() =~= Seq::<u64>::empty());
    }
}

/// The frame period is the reciprocal of the target rate, to the nanosecond:
/// `target_fps` periods fit in one second and one more nanosecond per frame
/// would overshoot it.
pub proof fn lemma_frame_period_is_reciprocal(target_fps: nat)
    requires
        target_fps > 0,
    ensures
        frame_period(target_fps) * target_fps <= NANOS_PER_SEC,
        NANOS_PER_SEC < (frame_period(target_fps) + 1) * target_fps,
{
    let q = frame_period(target_fps);
    let n = NANOS_PER_SEC as nat;
    assert(q * target_fps <= n && n < (q + 1) * target_fps) by (nonlinear_arith)
        requires
            q == n / target_fps,
            target_fps > 0,
    ;
}

/// Each slot of the ring holds the count of the latest of the last five
/// closed windows that was written to it (zero where none was yet), so the
/// ring's sum is the sum of the last five window counts; once five windows
/// have closed, every slot holds a measured count.
pub proof fn lemma_ring_holds_recent_windows(history: Seq<u64>)
    ensures
        forall|j: int| 0 <= j < WINDOW_SLOTS ==> #[trigger] ring_of(history)[j] == window_slot(history, j),
        seq_sum(ring_of(history)) == seq_sum(recent_windows(history)),
        history.len() >= WINDOW_SLOTS ==> forall|j: int| 0 <= j < WINDOW_SLOTS ==>
            exists|k: int| history.len() - WINDOW_SLOTS <= k < history.len() && #[trigger] ring_of(history)[j] == history[k],
    decreases history.len(),
{
    lemma_ring_len(history);
    let n = history.len() as int;
    if n == 0 {
        assert(recent_windows(history) =~= Seq::<u64>::empty());
        assert(seq_sum(ring_of(history)) == 0) by {
            reveal_with_fuel(seq_sum, 6);
        }
    } else {
        let prev = history.drop_last();
        let x = history.last();
        let idx = (n - 1) % (WINDOW_SLOTS as int);
        lemma_ring_holds_recent_windows(prev);
        lemma_ring_len(prev);
        assert forall|j: int| 0 <= j < WINDOW_SLOTS implies #[trigger] ring_of(history)[j] == window_slot(history, j) by {
            if j == idx {
                assert((n - 1 - j) % 5 == 0);
            } else {
                assert((n - 1 - j) % 5 == (n - 2 - j) % 5 + 1);
            }
        }
        // what the new count overwrote
        let dropped: int = if n - 1 >= 5 { prev[n - 6] as int } else { 0 };
        assert((n - 2 - idx) % 5 == 4);
        assert(ring_of(prev)[idx] == dropped);
        lemma_sum_update(ring_of(prev), idx, x);
        if n - 1 < 5 {
            assert(recent_windows(prev) == prev);
            assert(recent_windows(history) == history);
        } else {
            let tail = prev.subrange(n - 6, n - 1);
            lemma_sum_front(tail);
            assert(tail.subrange(1, 5) =~= prev.subrange(n - 5, n - 1));
            assert(recent_windows(history).drop_last() =~= prev.subrange(n - 5, n - 1));
        }
        if n >= 5 {
            assert forall|j: int| 0 <= j < WINDOW_SLOTS implies exists|k: int|
                n - WINDOW_SLOTS <= k < n && #[trigger] ring_of(history)[j] == history[k] by {
                let k = n - 1 - (n - 1 - j) % 5;
                assert(ring_of(history)[j] == history[k]);
            }
        }
    }
}

/// Before the first window closes the ring is all zeros, so the rate it
/// reports is zero.
pub proof fn lemma_no_rate_before_first_window(c: FpsCounter)
    requires
        c.wf(),
        c@.history.len() == 0,
    ensures
        seq_sum(c@.ring) == 0,
{
    lemma_ring_holds_recent_windows(c@.history);
    assert(recent_windows(c@.history) =~= Seq::<u64>::empty());
}

/// A limited frame that starts before it is due and waits the delay it is
/// given ends exactly when due: with no render time, the frame that raises
/// a window's count to `frame_count + 1` ends `frame_count + 2` periods into
/// the window.
pub proof fn lemma_paced_frame_ends_when_due(frame_nanos: nat, frame_count: nat, since_window: nat)
    requires
        since_window < designated_time(frame_nanos, frame_count),
    ensures
        since_window + pacing_delay(frame_nanos, frame_count, since_window, true)
            == designated_time(frame_nanos, frame_count),
{
}

} // verus!
