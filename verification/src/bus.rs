//! The broadcast fan-out bus.
//!
//! Every published [`Activity`] is appended to one monotonically growing
//! log; a subscriber is a cursor into that log. A subscriber only ever
//! sees entries published after it subscribed, in publish order. Each
//! subscriber is bounded by the bus capacity: only the most recent
//! `capacity` entries are retained for it, and a subscriber whose cursor
//! has fallen out of that window receives an explicit [`RecvOutcome::Lagged`]
//! signal carrying the number of entries it missed, then resumes with the
//! oldest retained entry. Loss is therefore observable, never silent.

use vstd::prelude::*;

use crate::types::Activity;
use crate::types::ActivityView;

verus! {

/// What one receive attempt yields.
pub enum RecvOutcome {
    /// The next activity, in publish order.
    Activity(Activity),
    /// The subscriber overran its buffer: this many activities were
    /// dropped for it since its last successful receive.
    Lagged(usize),
    /// Nothing published yet beyond the subscriber's cursor.
    Pending,
    /// The bus was closed and the subscriber has drained everything.
    Closed,
}

/// Mathematical image of a [`RecvOutcome`].
pub ghost enum RecvModel {
    Activity(ActivityView),
    Lagged(int),
    Pending,
    Closed,
}

impl View for RecvOutcome {
    type V = RecvModel;

    open spec fn view(&self) -> RecvModel {
        match self {
            RecvOutcome::Activity(a) => RecvModel::Activity(a@),
            RecvOutcome::Lagged(n) => RecvModel::Lagged(*n as int),
            RecvOutcome::Pending => RecvModel::Pending,
            RecvOutcome::Closed => RecvModel::Closed,
        }
    }
}

/// One consumer's position in the bus log: the index of the next entry
/// it has yet to receive.
pub struct Subscriber {
    pub cursor: usize,
}

/// The multi-producer, multi-consumer broadcast primitive.
pub struct Bus {
    log: Vec<Activity>,
    capacity: usize,
    subscribers: usize,
    closed: bool,
}

/// What one receive does, as a function of the bus state and the
/// subscriber's cursor: the outcome, and the cursor afterwards.
pub open spec fn spec_receive(
    log: Seq<ActivityView>,
    capacity: int,
    closed: bool,
    cursor: int,
) -> (RecvModel, int) {
    if cursor >= log.len() {
        (if closed { RecvModel::Closed } else { RecvModel::Pending }, cursor)
    } else if log.len() - cursor > capacity {
        (RecvModel::Lagged(log.len() - capacity - cursor), log.len() - capacity)
    } else {
        (RecvModel::Activity(log[cursor]), cursor + 1)
    }
}

/// The outcomes of `k` consecutive receive attempts against a fixed log,
/// together with the cursor afterwards.
pub open spec fn spec_drain(
    log: Seq<ActivityView>,
    capacity: int,
    closed: bool,
    cursor: int,
    k: nat,
) -> (Seq<RecvModel>, int)
    decreases k,
{
    if k == 0 {
        (Seq::<RecvModel>::empty(), cursor)
    } else {
        let (r, c1) = spec_receive(log, capacity, closed, cursor);
        let (rest, c2) = spec_drain(log, capacity, closed, c1, (k - 1) as nat);
        (seq![r] + rest, c2)
    }
}

/// The cursor after `j` receive attempts.
pub open spec fn cursor_after(
    log: Seq<ActivityView>,
    capacity: int,
    closed: bool,
    cursor: int,
    j: nat,
) -> int {
    spec_drain(log, capacity, closed, cursor, j).1
}

/// A drain of `k` steps yields exactly `k` outcomes.
pub proof fn lemma_drain_len(
    log: Seq<ActivityView>,
    capacity: int,
    closed: bool,
    cursor: int,
    k: nat,
)
    ensures
        spec_drain(log, capacity, closed, cursor, k).0.len() == k,
    decreases k,
{
    if k > 0 {
        let c1 = spec_receive(log, capacity, closed, cursor).1;
        lemma_drain_len(log, capacity, closed, c1, (k - 1) as nat);
    }
}

/// A subscriber that has not fallen behind observes the published
/// activities in exactly publish order: `k` receives starting at
/// `cursor`, with the whole stretch inside the retained window, yield
/// precisely `log[cursor .. cursor + k]`, each wrapped as an activity
/// outcome, and leave the cursor at `cursor + k`.
pub proof fn lemma_receive_in_order(
    log: Seq<ActivityView>,
    capacity: int,
    closed: bool,
    cursor: int,
    k: nat,
)
    requires
        capacity >= 1,
        0 <= cursor,
        cursor + k <= log.len(),
        log.len() - cursor <= capacity,
    ensures
        spec_drain(log, capacity, closed, cursor, k).0 == log.subrange(
            cursor,
            cursor + k,
        ).map_values(|a: ActivityView| RecvModel::Activity(a)),
        spec_drain(log, capacity, closed, cursor, k).1 == cursor + k,
    decreases k,
{
    let out = spec_drain(log, capacity, closed, cursor, k).0;
    let expected = log.subrange(cursor, cursor + k).map_values(
        |a: ActivityView| RecvModel::Activity(a),
    );
    if k == 0 {
        assert(out =~= expected);
    } else {
        lemma_receive_in_order(log, capacity, closed, cursor + 1, (k - 1) as nat);
        assert(out =~= expected);
    }
}

/// Every outcome a subscriber can see comes from at or past the log
/// position its cursor stood at: a subscriber whose cursor starts at
/// `n` — as a fresh subscription does, with `n` the log length at
/// subscribe time — is never delivered any activity published before
/// position `n`, however many receives follow.
pub proof fn lemma_no_delivery_before_cursor(
    log: Seq<ActivityView>,
    capacity: int,
    closed: bool,
    cursor: int,
    k: nat,
    n: int,
)
    requires
        capacity >= 1,
        0 <= n <= cursor <= log.len(),
    ensures
        ({
            let (out, end) = spec_drain(log, capacity, closed, cursor, k);
            &&& n <= end <= log.len()
            &&& forall|j: int|
                0 <= j < out.len() && (#[trigger] out[j]) is Activity ==> exists|i: int|
                    n <= i < log.len() && out[j] == RecvModel::Activity(log[i])
        }),
    decreases k,
{
    if k > 0 {
        let (r, c1) = spec_receive(log, capacity, closed, cursor);
        assert(n <= c1 <= log.len());
        lemma_no_delivery_before_cursor(log, capacity, closed, c1, (k - 1) as nat, n);
        let (out, end) = spec_drain(log, capacity, closed, cursor, k);
        let (rest, _) = spec_drain(log, capacity, closed, c1, (k - 1) as nat);
        lemma_drain_len(log, capacity, closed, cursor, k);
        lemma_drain_len(log, capacity, closed, c1, (k - 1) as nat);
        assert(out == seq![r] + rest);
        assert forall|j: int| 0 <= j < out.len() && (#[trigger] out[j]) is Activity implies
            exists|i: int| n <= i < log.len() && out[j] == RecvModel::Activity(log[i]) by {
            if j == 0 {
                if r is Activity {
                    assert(out[0] == RecvModel::Activity(log[cursor]));
                    assert(n <= cursor < log.len());
                }
            } else {
                assert(out[j] == rest[j - 1]);
            }
        }
    }
}

/// A subscriber whose cursor has fallen out of the retained window is
/// told exactly how much it missed: the next receive yields a lag
/// signal whose count equals the number of activities dropped since its
/// last successful receive, and the receive after that yields the first
/// activity published after the drop — nothing is skipped silently and
/// nothing is delivered twice.
pub proof fn lemma_lag_signal_exact(
    log: Seq<ActivityView>,
    capacity: int,
    closed: bool,
    cursor: int,
)
    requires
        capacity >= 1,
        0 <= cursor,
        log.len() - cursor > capacity,
    ensures
        ({
            let (r1, c1) = spec_receive(log, capacity, closed, cursor);
            let (r2, c2) = spec_receive(log, capacity, closed, c1);
            &&& r1 == RecvModel::Lagged(log.len() - capacity - cursor)
            &&& c1 == log.len() - capacity
            &&& r2 == RecvModel::Activity(log[log.len() - capacity])
            &&& c2 == c1 + 1
        }),
{
}

/// The cursor never moves backwards, and an activity is handed out only
/// at the position the cursor stood at, which the receive then steps
/// past: across any run of receives each log position is delivered at
/// most once.
pub proof fn lemma_no_duplicate_delivery(
    log: Seq<ActivityView>,
    capacity: int,
    closed: bool,
    cursor: int,
    k: nat,
)
    requires
        capacity >= 1,
        0 <= cursor <= log.len(),
    ensures
        ({
            let out = spec_drain(log, capacity, closed, cursor, k).0;
            &&& forall|j: nat|
                j < k ==> #[trigger] cursor_after(log, capacity, closed, cursor, j)
                    <= cursor_after(log, capacity, closed, cursor, (j + 1) as nat)
            &&& forall|j: nat|
                j < k && (#[trigger] out[j as int]) is Activity ==> {
                    let c = cursor_after(log, capacity, closed, cursor, j);
                    &&& out[j as int] == RecvModel::Activity(log[c])
                    &&& cursor_after(log, capacity, closed, cursor, (j + 1) as nat) == c + 1
                }
        }),
    decreases k,
{
    if k > 0 {
        let (r, c1) = spec_receive(log, capacity, closed, cursor);
        assert(0 <= c1 <= log.len());
        lemma_no_duplicate_delivery(log, capacity, closed, c1, (k - 1) as nat);
        let out = spec_drain(log, capacity, closed, cursor, k).0;
        let rest = spec_drain(log, capacity, closed, c1, (k - 1) as nat).0;
        lemma_drain_len(log, capacity, closed, cursor, k);
        lemma_drain_len(log, capacity, closed, c1, (k - 1) as nat);
        assert(out == seq![r] + rest);
        assert forall|j: nat| j < k implies #[trigger] cursor_after(
            log,
            capacity,
            closed,
            cursor,
            j,
        ) <= cursor_after(log, capacity, closed, cursor, (j + 1) as nat) by {
            if j == 0 {
                assert(spec_drain(log, capacity, closed, cursor, 0).1 == cursor);
                assert(spec_drain(log, capacity, closed, c1, 0).1 == c1);
                assert(cursor_after(log, capacity, closed, cursor, 0) == cursor);
                assert(cursor_after(log, capacity, closed, cursor, 1) == c1);
            } else {
                lemma_drain_step_shift(log, capacity, closed, cursor, j);
                lemma_drain_step_shift(log, capacity, closed, cursor, (j + 1) as nat);
                assert(cursor_after(log, capacity, closed, c1, (j - 1) as nat) <= cursor_after(
                    log,
                    capacity,
                    closed,
                    c1,
                    j,
                ));
            }
        }
        assert forall|j: nat| j < k && (#[trigger] out[j as int]) is Activity implies {
            let c = cursor_after(log, capacity, closed, cursor, j);
            &&& out[j as int] == RecvModel::Activity(log[c])
            &&& cursor_after(log, capacity, closed, cursor, (j + 1) as nat) == c + 1
        } by {
            if j == 0 {
                assert(spec_drain(log, capacity, closed, cursor, 0).1 == cursor);
                assert(spec_drain(log, capacity, closed, c1, 0).1 == c1);
                assert(cursor_after(log, capacity, closed, cursor, 0) == cursor);
                assert(cursor_after(log, capacity, closed, cursor, 1) == c1);
            } else {
                assert(out[j as int] == rest[j as int - 1]);
                lemma_drain_step_shift(log, capacity, closed, cursor, j);
                lemma_drain_step_shift(log, capacity, closed, cursor, (j + 1) as nat);
            }
        }
    }
}

/// After the first receive, the remaining outcomes and cursors of a
/// drain are those of a drain that starts one step later.
proof fn lemma_drain_step_shift(
    log: Seq<ActivityView>,
    capacity: int,
    closed: bool,
    cursor: int,
    j: nat,
)
    requires
        j >= 1,
    ensures
        cursor_after(log, capacity, closed, cursor, j) == cursor_after(
            log,
            capacity,
            closed,
            spec_receive(log, capacity, closed, cursor).1,
            (j - 1) as nat,
        ),
    decreases j,
{
    let c1 = spec_receive(log, capacity, closed, cursor).1;
    if j == 1 {
    } else {
        lemma_drain_step_shift(log, capacity, closed, cursor, (j - 1) as nat);
        lemma_drain_tail(log, capacity, closed, cursor, j);
        lemma_drain_tail(log, capacity, closed, c1, (j - 1) as nat);
    }
}

/// A drain of `k + 1` steps ends where one more receive after a drain
/// of `k` steps ends.
proof fn lemma_drain_tail(
    log: Seq<ActivityView>,
    capacity: int,
    closed: bool,
    cursor: int,
    k: nat,
)
    requires
        k >= 1,
    ensures
        cursor_after(log, capacity, closed, cursor, k) == spec_receive(
            log,
            capacity,
            closed,
            cursor_after(log, capacity, closed, cursor, (k - 1) as nat),
        ).1,
    decreases k,
{
    let c1 = spec_receive(log, capacity, closed, cursor).1;
    if k == 1 {
        assert(spec_drain(log, capacity, closed, c1, 0).1 == c1);
        assert(spec_drain(log, capacity, closed, cursor, 0).1 == cursor);
    } else {
        lemma_drain_tail(log, capacity, closed, c1, (k - 1) as nat);
    }
}

impl Bus {
    /// The full publish log, oldest first.
    pub closed spec fn log_view(&self) -> Seq<ActivityView> {
        self.log.deep_view()
    }

    /// The per-subscriber buffer bound.
    pub closed spec fn spec_capacity(&self) -> int {
        self.capacity as int
    }

    /// How many subscribers are currently registered.
    pub closed spec fn spec_subscribers(&self) -> int {
        self.subscribers as int
    }

    /// Whether the bus was torn down.
    pub closed spec fn spec_closed(&self) -> bool {
        self.closed
    }

    /// A bus retains at least one entry per subscriber.
    pub open spec fn wf(&self) -> bool {
        self.spec_capacity() >= 1
    }

    /// A cursor is valid for this bus if it does not point past the log.
    pub open spec fn valid_subscriber(&self, s: Subscriber) -> bool {
        s.cursor as int <= self.log_view().len()
    }

    /// A fresh, open bus with an empty log and no subscribers.
    pub fn new(capacity: usize) -> (b: Bus)
        requires
            capacity >= 1,
        ensures
            b.wf(),
            b.log_view() == Seq::<ActivityView>::empty(),
            b.spec_capacity() == capacity as int,
            b.spec_subscribers() == 0,
            !b.spec_closed(),
    {
        let b = Bus { log: Vec::new(), capacity, subscribers: 0, closed: false };
        proof {
            assert(b.log.deep_view() =~= Seq::<ActivityView>::empty());
        }
        b
    }

    /// How many subscribers are currently registered.
    pub fn subscriber_count(&self) -> (n: usize)
        ensures
            n as int == self.spec_subscribers(),
    {
        self.subscribers
    }

    /// How many activities have been published so far.
    pub fn published_count(&self) -> (n: usize)
        ensures
            n as int == self.log_view().len(),
    {
        self.log.len()
    }

    /// Register a new consumer. Its cursor starts at the end of the log,
    /// so it receives exactly the activities published after this call.
    pub fn subscribe(&mut self) -> (s: Subscriber)
        requires
            old(self).spec_subscribers() < usize::MAX,
        ensures
            s.cursor as int == final(self).log_view().len(),
            final(self).valid_subscriber(s),
            final(self).log_view() == old(self).log_view(),
            final(self).spec_capacity() == old(self).spec_capacity(),
            final(self).spec_subscribers() == old(self).spec_subscribers() + 1,
            final(self).spec_closed() == old(self).spec_closed(),
            final(self).wf() == old(self).wf(),
    {
        self.subscribers = self.subscribers + 1;
        Subscriber { cursor: self.log.len() }
    }

    /// A consumer is gone; forget it in the fan-out count.
    pub fn unsubscribe(&mut self)
        ensures
            final(self).log_view() == old(self).log_view(),
            final(self).spec_capacity() == old(self).spec_capacity(),
            final(self).spec_subscribers() == if old(self).spec_subscribers() > 0 {
                old(self).spec_subscribers() - 1
            } else {
                0
            },
            final(self).spec_closed() == old(self).spec_closed(),
            final(self).wf() == old(self).wf(),
    {
        if self.subscribers > 0 {
            self.subscribers = self.subscribers - 1;
        }
    }

    /// Append one activity to the log, making it visible to every
    /// current subscriber. Returns how many subscribers it was delivered
    /// to; publishing with zero subscribers is a no-op fan-out, not an
    /// error.
    pub fn publish(&mut self, activity: Activity) -> (delivered: usize)
        ensures
            final(self).log_view() == old(self).log_view().push(activity@),
            final(self).spec_capacity() == old(self).spec_capacity(),
            final(self).spec_subscribers() == old(self).spec_subscribers(),
            final(self).spec_closed() == old(self).spec_closed(),
            final(self).wf() == old(self).wf(),
            delivered as int == old(self).spec_subscribers(),
    {
        let ghost pre = self.log.deep_view();
        self.log.push(activity);
        proof {
            assert(self.log.deep_view() =~= pre.push(activity@));
        }
        self.subscribers
    }

    /// Tear the bus down: subscribers that have drained the log will see
    /// [`RecvOutcome::Closed`] from now on.
    pub fn close(&mut self)
        ensures
            final(self).log_view() == old(self).log_view(),
            final(self).spec_capacity() == old(self).spec_capacity(),
            final(self).spec_subscribers() == old(self).spec_subscribers(),
            final(self).spec_closed(),
            final(self).wf() == old(self).wf(),
    {
        self.closed = true;
    }

    /// One receive attempt for the given subscriber, exactly as
    /// [`spec_receive`] describes: the next activity in publish order,
    /// or a lag signal counting what was dropped, or `Pending` /
    /// `Closed` when the cursor has reached the end of the log.
    pub fn receive(&self, s: &mut Subscriber) -> (r: RecvOutcome)
        requires
            self.wf(),
            self.valid_subscriber(*old(s)),
        ensures
            (r@, final(s).cursor as int) == spec_receive(
                self.log_view(),
                self.spec_capacity(),
                self.spec_closed(),
                old(s).cursor as int,
            ),
            self.valid_subscriber(*final(s)),
            final(s).cursor >= old(s).cursor,
    {
        if s.cursor >= self.log.len() {
            if self.closed {
                RecvOutcome::Closed
            } else {
                RecvOutcome::Pending
            }
        } else if self.log.len() - s.cursor > self.capacity {
            let oldest_retained = self.log.len() - self.capacity;
            let missed = oldest_retained - s.cursor;
            s.cursor = oldest_retained;
            RecvOutcome::Lagged(missed)
        } else {
            let a = &self.log[s.cursor];
            s.cursor = s.cursor + 1;
            proof {
                assert(a@ == self.log.deep_view()[old(s).cursor as int]);
            }
            RecvOutcome::Activity(a.clone())
        }
    }
}

} // verus!
