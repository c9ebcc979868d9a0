//! The shared store of connected users and message history, and the
//! single place where state changes are paired with their broadcast:
//! every mutation appends the matching activity to the bus log in the
//! same order, so activity order on the bus is mutation order here.

use vstd::prelude::*;
use vstd::seq_lib::group_seq_properties;

use crate::bus::Bus;
use crate::bus::RecvOutcome;
use crate::bus::Subscriber;
use crate::bus::spec_receive;
use crate::text::is_blank;
use crate::text::is_blank_line;
use crate::types::Activity;
use crate::types::ActivityView;
use crate::types::Message;
use crate::types::MessageView;
use crate::types::User;
use crate::types::UserView;

verus! {

/// No two roster entries share an identifier.
pub open spec fn unique_uuids(users: Seq<UserView>) -> bool {
    forall|i: int, j: int|
        0 <= i < j < users.len() ==> (#[trigger] users[i]).uuid != (#[trigger] users[j]).uuid
}

/// Some roster entry carries this identifier.
pub open spec fn roster_has(users: Seq<UserView>, uuid: Seq<char>) -> bool {
    exists|i: int| 0 <= i < users.len() && (#[trigger] users[i]).uuid == uuid
}

/// The roster without the entries that carry `uuid`, order preserved.
pub open spec fn roster_excluding(users: Seq<UserView>, uuid: Seq<char>) -> Seq<UserView> {
    users.filter(|u: UserView| u.uuid != uuid)
}

/// Everything kept by a filter was already there.
proof fn lemma_filter_subset(s: Seq<UserView>, pred: spec_fn(UserView) -> bool)
    ensures
        forall|x: UserView| #[trigger] s.filter(pred).contains(x) ==> s.contains(x),
    decreases s.len(),
{
    reveal(Seq::filter);
    if s.len() > 0 {
        let head = s.drop_last();
        lemma_filter_subset(head, pred);
        assert forall|x: UserView| #[trigger] s.filter(pred).contains(x) implies s.contains(x) by {
            if head.filter(pred).contains(x) {
                let i = choose|i: int| 0 <= i < head.len() && head[i] == x;
                assert(s[i] == x);
            } else {
                assert(x == s.last());
            }
        }
    }
}

/// Filtering a roster with distinct identifiers leaves the identifiers
/// distinct.
proof fn lemma_filter_unique(s: Seq<UserView>, pred: spec_fn(UserView) -> bool)
    requires
        unique_uuids(s),
    ensures
        unique_uuids(s.filter(pred)),
    decreases s.len(),
{
    reveal(Seq::filter);
    if s.len() > 0 {
        let head = s.drop_last();
        assert(unique_uuids(head)) by {
            assert(forall|i: int| 0 <= i < head.len() ==> head[i] == s[i]);
        }
        lemma_filter_unique(head, pred);
        lemma_filter_subset(head, pred);
        if pred(s.last()) {
            let out = s.filter(pred);
            let kept = head.filter(pred);
            assert(out == kept.push(s.last()));
            assert forall|i: int, j: int| 0 <= i < j < out.len() implies (#[trigger] out[i]).uuid
                != (#[trigger] out[j]).uuid by {
                if j == out.len() - 1 {
                    assert(out[j] == s.last());
                    assert(kept.contains(out[i]));
                    let k = choose|k: int| 0 <= k < head.len() && head[k] == out[i];
                    assert(s[k] == out[i]);
                    assert(s[k].uuid != s[s.len() - 1].uuid);
                } else {
                    assert(out[i] == kept[i] && out[j] == kept[j]);
                }
            }
        }
    }
}

/// What a roster snapshot excluding `ex` promises: no entry carries the
/// excluded identifier, every other registered entry is kept, and — the
/// roster's identifiers being distinct — each appears exactly once.
pub proof fn lemma_snapshot_roster(users: Seq<UserView>, ex: Seq<char>)
    requires
        unique_uuids(users),
    ensures
        ({
            let s = roster_excluding(users, ex);
            &&& forall|i: int| 0 <= i < s.len() ==> (#[trigger] s[i]).uuid != ex
            &&& forall|u: UserView| #[trigger] s.contains(u) ==> users.contains(u)
            &&& forall|u: UserView|
                users.contains(u) && u.uuid != ex ==> #[trigger] s.contains(u)
            &&& unique_uuids(s)
        }),
{
    broadcast use group_seq_properties;

    let pred = |u: UserView| u.uuid != ex;
    let s = users.filter(pred);
    lemma_filter_subset(users, pred);
    lemma_filter_unique(users, pred);
    assert forall|i: int| 0 <= i < s.len() implies (#[trigger] s[i]).uuid != ex by {
        users.lemma_filter_pred(pred, i);
    }
    assert forall|u: UserView| users.contains(u) && u.uuid != ex implies #[trigger] s.contains(
        u,
    ) by {
        let i = choose|i: int| 0 <= i < users.len() && users[i] == u;
        users.lemma_filter_contains(pred, i);
    }
}

/// Mathematical image of the whole directory: the roster, the message
/// history, and the bus state it publishes into.
pub ghost struct DbView {
    pub users: Seq<UserView>,
    pub messages: Seq<MessageView>,
    pub log: Seq<ActivityView>,
    pub capacity: int,
    pub subscribers: int,
    pub closed: bool,
}

/// The process-wide shared state: the current roster, the append-only
/// message history, and the bus every change is published on.
pub struct InMemoryDB {
    users: Vec<User>,
    messages: Vec<Message>,
    bus: Bus,
}

impl View for InMemoryDB {
    type V = DbView;

    closed spec fn view(&self) -> DbView {
        DbView {
            users: self.users.deep_view(),
            messages: self.messages.deep_view(),
            log: self.bus.log_view(),
            capacity: self.bus.spec_capacity(),
            subscribers: self.bus.spec_subscribers(),
            closed: self.bus.spec_closed(),
        }
    }
}

impl InMemoryDB {
    /// The directory's invariant: a usable bus, and a roster keyed by
    /// identifier — one entry per connected user.
    pub open spec fn wf(&self) -> bool {
        self@.capacity >= 1 && unique_uuids(self@.users)
    }

    /// A subscriber handle that may still be used against this
    /// directory's bus.
    pub open spec fn valid_subscriber(&self, s: Subscriber) -> bool {
        s.cursor as int <= self@.log.len()
    }

    /// A fresh directory around the given bus: empty roster, empty
    /// history.
    pub fn new(bus: Bus) -> (db: InMemoryDB)
        requires
            bus.wf(),
        ensures
            db.wf(),
            db@.users == Seq::<UserView>::empty(),
            db@.messages == Seq::<MessageView>::empty(),
            db@.log == bus.log_view(),
            db@.capacity == bus.spec_capacity(),
            db@.subscribers == bus.spec_subscribers(),
            db@.closed == bus.spec_closed(),
    {
        let db = InMemoryDB { users: Vec::new(), messages: Vec::new(), bus };
        proof {
            assert(db.users.deep_view() =~= Seq::<UserView>::empty());
            assert(db.messages.deep_view() =~= Seq::<MessageView>::empty());
        }
        db
    }

    /// Add a user to the roster. The identifier is fresh: identifiers
    /// are unique per connection and never reused.
    pub fn add_user(&mut self, user: User)
        requires
            old(self).wf(),
            !roster_has(old(self)@.users, user@.uuid),
        ensures
            final(self).wf(),
            final(self)@.users == old(self)@.users.push(user@),
            final(self)@.messages == old(self)@.messages,
            final(self)@.log == old(self)@.log,
            final(self)@.capacity == old(self)@.capacity,
            final(self)@.subscribers == old(self)@.subscribers,
            final(self)@.closed == old(self)@.closed,
    {
        let ghost pre = self.users.deep_view();
        let ghost u = user@;
        self.users.push(user);
        proof {
            assert(self.users.deep_view() =~= pre.push(u));
            assert forall|i: int, j: int| 0 <= i < j < pre.push(u).len() implies (#[trigger] pre.push(
                u,
            )[i]).uuid != (#[trigger] pre.push(u)[j]).uuid by {
                if j == pre.len() {
                    assert(!(pre[i].uuid == u.uuid));
                }
            }
        }
    }

    /// Record one activity and publish it to every subscriber: the
    /// mutation order of this directory is the publish order of its bus.
    pub fn add_activity(&mut self, activity: Activity)
        requires
            old(self).wf(),
        ensures
            final(self).wf(),
            final(self)@.log == old(self)@.log.push(activity@),
            final(self)@.users == old(self)@.users,
            final(self)@.messages == old(self)@.messages,
            final(self)@.capacity == old(self)@.capacity,
            final(self)@.subscribers == old(self)@.subscribers,
            final(self)@.closed == old(self)@.closed,
    {
        let _delivered = self.bus.publish(activity);
    }

    /// A user's session became active: add it to the roster, then
    /// broadcast its `Join` — atomically with respect to the bus order.
    pub fn on_user_join(&mut self, user: User)
        requires
            old(self).wf(),
            !roster_has(old(self)@.users, user@.uuid),
        ensures
            final(self).wf(),
            final(self)@.users == old(self)@.users.push(user@),
            final(self)@.log == old(self)@.log.push(ActivityView::Join(user@)),
            final(self)@.messages == old(self)@.messages,
            final(self)@.capacity == old(self)@.capacity,
            final(self)@.subscribers == old(self)@.subscribers,
            final(self)@.closed == old(self)@.closed,
    {
        let announced = user.clone();
        self.add_user(user);
        self.add_activity(Activity::Join(announced));
    }

    /// A user's session ended: drop its identifier from the roster —
    /// a no-op if it is already absent, disconnect paths may race — then
    /// broadcast its `Leave`.
    pub fn on_user_leave(&mut self, user: User)
        requires
            old(self).wf(),
        ensures
            final(self).wf(),
            final(self)@.users == roster_excluding(old(self)@.users, user@.uuid),
            final(self)@.log == old(self)@.log.push(ActivityView::Leave(user@)),
            final(self)@.messages == old(self)@.messages,
            final(self)@.capacity == old(self)@.capacity,
            final(self)@.subscribers == old(self)@.subscribers,
            final(self)@.closed == old(self)@.closed,
    {
        let kept = users_excluding(&self.users, &user.uuid);
        proof {
            lemma_filter_unique(
                self.users.deep_view(),
                |u: UserView| u.uuid != user@.uuid,
            );
        }
        self.users = kept;
        self.add_activity(Activity::Leave(user));
    }

    /// Append a chat line to the history, then broadcast it as a
    /// `Message` activity carrying the author's display name. A blank
    /// line — empty or whitespace-only — is a no-op: it is neither
    /// stored nor broadcast.
    pub fn send_message(&mut self, user: User, content: String, timestamp: u64)
        requires
            old(self).wf(),
        ensures
            final(self).wf(),
            is_blank(content@) ==> final(self)@ == old(self)@,
            !is_blank(content@) ==> final(self)@.messages == old(self)@.messages.push(
                MessageView { user: user@, content: content@, timestamp },
            ),
            !is_blank(content@) ==> final(self)@.log == old(self)@.log.push(
                ActivityView::Message(user@.screen_name, content@),
            ),
            final(self)@.users == old(self)@.users,
            final(self)@.capacity == old(self)@.capacity,
            final(self)@.subscribers == old(self)@.subscribers,
            final(self)@.closed == old(self)@.closed,
    {
        if is_blank_line(content.as_str()) {
            return ;
        }
        let ghost pre = self.messages.deep_view();
        let name = user.screen_name.clone();
        let stored = Message { user, content: content.clone(), timestamp };
        let ghost m = stored@;
        self.messages.push(stored);
        proof {
            assert(self.messages.deep_view() =~= pre.push(m));
        }
        self.add_activity(Activity::Message(name, content));
    }

    /// A copy of the current roster, at-call-time only: it does not
    /// track later mutations.
    pub fn get_all_users(&self) -> (r: Vec<User>)
        ensures
            r.deep_view() == self@.users,
    {
        let mut out: Vec<User> = Vec::new();
        let mut i: usize = 0;
        proof {
            assert(out.deep_view() =~= self.users.deep_view().subrange(0, 0));
        }
        while i < self.users.len()
            invariant
                0 <= i <= self.users.len(),
                out.deep_view() == self.users.deep_view().subrange(0, i as int),
            decreases self.users.len() - i,
        {
            let ghost pre = out.deep_view();
            out.push(self.users[i].clone());
            proof {
                assert(out.deep_view() =~= pre.push(self.users.deep_view()[i as int]));
                assert(self.users.deep_view().subrange(0, i + 1) =~= pre.push(
                    self.users.deep_view()[i as int],
                ));
            }
            i = i + 1;
        }
        proof {
            assert(self.users.deep_view().subrange(0, self.users.deep_view().len() as int)
                =~= self.users.deep_view());
        }
        out
    }

    /// The current roster minus the given identifier, as a copy, for
    /// building a "currently connected" listing that never shows the
    /// asking session itself.
    pub fn snapshot_roster(&self, excluding: &String) -> (r: Vec<User>)
        ensures
            r.deep_view() == roster_excluding(self@.users, excluding@),
    {
        users_excluding(&self.users, excluding)
    }

    /// Whether some roster entry carries this identifier.
    pub fn roster_contains(&self, uuid: &String) -> (b: bool)
        ensures
            b == roster_has(self@.users, uuid@),
    {
        let mut i: usize = 0;
        while i < self.users.len()
            invariant
                0 <= i <= self.users.len(),
                self.users.deep_view().len() == self.users.len(),
                forall|k: int|
                    0 <= k < i ==> (#[trigger] self.users.deep_view()[k]).uuid != uuid@,
            decreases self.users.len() - i,
        {
            if self.users[i].uuid == *uuid {
                proof {
                    assert(self.users.deep_view()[i as int].uuid == uuid@);
                }
                return true;
            }
            i = i + 1;
        }
        false
    }

    /// How many bus consumers are currently registered.
    pub fn subscriber_count(&self) -> (n: usize)
        ensures
            n as int == self@.subscribers,
    {
        self.bus.subscriber_count()
    }

    /// How many activities have been published so far.
    pub fn activity_count(&self) -> (n: usize)
        ensures
            n as int == self@.log.len(),
    {
        self.bus.published_count()
    }

    /// Register a new bus consumer; it sees only activities published
    /// after this call.
    pub fn subscribe(&mut self) -> (s: Subscriber)
        requires
            old(self).wf(),
            old(self)@.subscribers < usize::MAX,
        ensures
            final(self).wf(),
            s.cursor as int == final(self)@.log.len(),
            final(self).valid_subscriber(s),
            final(self)@.users == old(self)@.users,
            final(self)@.messages == old(self)@.messages,
            final(self)@.log == old(self)@.log,
            final(self)@.capacity == old(self)@.capacity,
            final(self)@.subscribers == old(self)@.subscribers + 1,
            final(self)@.closed == old(self)@.closed,
    {
        self.bus.subscribe()
    }

    /// A consumer is gone; forget it in the fan-out count.
    pub fn unsubscribe(&mut self)
        requires
            old(self).wf(),
        ensures
            final(self).wf(),
            final(self)@.users == old(self)@.users,
            final(self)@.messages == old(self)@.messages,
            final(self)@.log == old(self)@.log,
            final(self)@.capacity == old(self)@.capacity,
            final(self)@.subscribers == if old(self)@.subscribers > 0 {
                old(self)@.subscribers - 1
            } else {
                0
            },
            final(self)@.closed == old(self)@.closed,
    {
        self.bus.unsubscribe()
    }

    /// One receive attempt against this directory's bus, exactly as
    /// [`spec_receive`] describes.
    pub fn receive(&self, s: &mut Subscriber) -> (r: RecvOutcome)
        requires
            self.wf(),
            self.valid_subscriber(*old(s)),
        ensures
            (r@, final(s).cursor as int) == spec_receive(
                self@.log,
                self@.capacity,
                self@.closed,
                old(s).cursor as int,
            ),
            self.valid_subscriber(*final(s)),
            final(s).cursor >= old(s).cursor,
    {
        self.bus.receive(s)
    }
}

/// The users of `v` whose identifier differs from `uuid`, as fresh
/// copies, order preserved.
fn users_excluding(v: &Vec<User>, uuid: &String) -> (r: Vec<User>)
    ensures
        r.deep_view() == roster_excluding(v.deep_view(), uuid@),
{
    let ghost all = v.deep_view();
    let mut out: Vec<User> = Vec::new();
    let mut i: usize = 0;
    proof {
        reveal(Seq::filter);
        assert(out.deep_view() =~= roster_excluding(all.subrange(0, 0), uuid@));
    }
    while i < v.len()
        invariant
            0 <= i <= v.len(),
            all == v.deep_view(),
            all.len() == v.len(),
            out.deep_view() == roster_excluding(all.subrange(0, i as int), uuid@),
        decreases v.len() - i,
    {
        let ghost pre = out.deep_view();
        let keep = !(v[i].uuid == *uuid);
        if keep {
            out.push(v[i].clone());
        }
        proof {
            let head = all.subrange(0, i as int);
            let grown = all.subrange(0, i + 1);
            assert(grown =~= head.push(all[i as int]));
            assert(all[i as int] == v[i as int].deep_view());
            assert(keep == (all[i as int].uuid != uuid@));
            lemma_roster_excluding_push(head, all[i as int], uuid@);
            if keep {
                assert(out.deep_view() =~= pre.push(all[i as int]));
            }
        }
        i = i + 1;
    }
    proof {
        assert(all.subrange(0, all.len() as int) =~= all);
    }
    out
}

/// How excluding an identifier treats one more roster entry: a user
/// with another identifier is kept at the end, one with the excluded
/// identifier is dropped.
proof fn lemma_roster_excluding_push(s: Seq<UserView>, x: UserView, ex: Seq<char>)
    ensures
        x.uuid != ex ==> roster_excluding(s.push(x), ex) == roster_excluding(s, ex).push(x),
        x.uuid == ex ==> roster_excluding(s.push(x), ex) == roster_excluding(s, ex),
{
    reveal(Seq::filter);
    assert(s.push(x).drop_last() =~= s);
    assert(s.push(x).last() == x);
}

} // verus!
