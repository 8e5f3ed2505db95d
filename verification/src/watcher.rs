//! The watcher primitive.
//!
//! A watcher carries value-change events from the store to one subscriber.
//! Its holding state is either an ordered queue of deliveries or a single
//! eager slot holding only the most recent one; beside it sit a ready flag
//! (the wake signal) and a kill flag.
//!
//! The original splits the watcher into a producer handle held by the store
//! and a consumer handle held by the subscriber, sharing this state. Here the
//! state is one value with both method families; the caller that runs
//! producer and consumer on different tasks wraps it in shared ownership.
//!
//! The coordinated notify deposits a value into every watcher of a group
//! first and signals them only after all deposits are done, so that no
//! consumer can wake and read state before its siblings hold the same value.

use vstd::prelude::*;
use crate::access::WatcherBehaviour;
use crate::values::{Value, ValueView};

verus! {

/// The holding state: a queue of every delivery, or the most recent one.
pub enum Holding {
    /// Deliveries queue up front-first and come out in order.
    Ordered(Vec<Option<Value>>),
    /// Only the most recent delivery is kept; older ones coalesce away.
    Eager(Option<Option<Value>>),
}

/// A watcher: holding state, the wake signal, and the kill flag.
pub struct Watcher {
    pub holding: Holding,
    pub ready: bool,
    pub killed: bool,
}

/// The mathematical shape of a watcher.
pub ghost struct WatcherView {
    /// Whether deliveries queue up (ordered) or coalesce (eager).
    pub ordered: bool,
    /// The queued deliveries, front first; empty for an eager watcher.
    pub queue: Seq<Option<ValueView>>,
    /// The eager slot; `None` for an ordered watcher.
    pub slot: Option<Option<ValueView>>,
    pub ready: bool,
    pub killed: bool,
}

impl View for Watcher {
    type V = WatcherView;

    open spec fn view(&self) -> WatcherView {
        match self.holding {
            Holding::Ordered(q) => WatcherView {
                ordered: true,
                queue: q.deep_view(),
                slot: None,
                ready: self.ready,
                killed: self.killed,
            },
            Holding::Eager(s) => WatcherView {
                ordered: false,
                queue: Seq::empty(),
                slot: s.deep_view(),
                ready: self.ready,
                killed: self.killed,
            },
        }
    }
}

impl WatcherView {
    /// What a deposit does to the holding state: queue at the back, or
    /// overwrite the slot.
    pub open spec fn deposited(self, v: Option<ValueView>) -> WatcherView {
        if self.ordered {
            WatcherView { queue: self.queue.push(v), ..self }
        } else {
            WatcherView { slot: Some(v), ..self }
        }
    }

    /// What the wake signal does: set the ready flag.
    pub open spec fn signaled(self) -> WatcherView {
        WatcherView { ready: true, ..self }
    }

    /// Whether a `wait` can return without suspending: a delivery is held,
    /// or the signal is set.
    pub open spec fn can_complete(self) -> bool {
        (self.ordered && self.queue.len() > 0) || (!self.ordered && self.slot is Some)
            || self.ready
    }

    /// What a completed wait returns: the front of the queue, the slot's
    /// content, or nothing when only the signal was set.
    pub open spec fn delivery(self) -> Option<ValueView> {
        if self.ordered {
            if self.queue.len() > 0 {
                self.queue[0]
            } else {
                None
            }
        } else {
            match self.slot {
                Option::Some(d) => d,
                Option::None => None,
            }
        }
    }

    /// The watcher a completed wait leaves behind.
    pub open spec fn after_wait(self) -> WatcherView {
        if self.ordered {
            if self.queue.len() > 0 {
                WatcherView { queue: self.queue.skip(1), ..self }
            } else {
                WatcherView { ready: false, ..self }
            }
        } else {
            match self.slot {
                Option::Some(d) => WatcherView { slot: None, ..self },
                Option::None => WatcherView { slot: None, ready: false, ..self },
            }
        }
    }

    /// Folded deposits of a whole sequence of values, oldest first.
    pub open spec fn deposited_all(self, vs: Seq<Option<ValueView>>) -> WatcherView
        decreases vs.len(),
    {
        if vs.len() == 0 {
            self
        } else {
            self.deposited(vs[0]).deposited_all(vs.skip(1))
        }
    }
}

/// Ordered delivery keeps everything in order: depositing the wakes
/// `vs` into an ordered watcher holding `q` leaves it holding `q + vs`.
/// Since `wait` always takes the front of the queue, a subscriber that
/// started at an empty queue observes exactly `vs`, with no omissions and
/// no reorderings.
pub proof fn lemma_ordered_delivery(w: WatcherView, vs: Seq<Option<ValueView>>)
    requires
        w.ordered,
    ensures
        w.deposited_all(vs).queue == w.queue + vs,
        w.deposited_all(vs).ordered,
    decreases vs.len(),
{
    if vs.len() == 0 {
        assert(w.queue + vs =~= w.queue);
    } else {
        lemma_ordered_delivery(w.deposited(vs[0]), vs.skip(1));
        assert(w.queue.push(vs[0]) + vs.skip(1) =~= w.queue + vs);
    }
}

/// Eager coalescing keeps the latest: depositing the wakes `vs` into an
/// eager watcher leaves its slot holding exactly the last of them.
pub proof fn lemma_eager_coalesce(w: WatcherView, vs: Seq<Option<ValueView>>)
    requires
        !w.ordered,
        vs.len() > 0,
    ensures
        w.deposited_all(vs).slot == Some(vs.last()),
        !w.deposited_all(vs).ordered,
    decreases vs.len(),
{
    if vs.len() == 1 {
    } else {
        lemma_eager_coalesce(w.deposited(vs[0]), vs.skip(1));
        assert(vs.skip(1).last() == vs.last());
    }
}

impl Watcher {
    /// A fresh watcher of the requested behaviour: empty holding, no signal,
    /// not killed.
    pub fn new(class: WatcherBehaviour) -> (r: Watcher)
        ensures
            r@.ordered == (class is Ordered),
            r@.queue == Seq::<Option<ValueView>>::empty(),
            r@.slot is None,
            !r@.ready,
            !r@.killed,
    {
        Watcher {
            holding: match class {
                WatcherBehaviour::Ordered => Holding::Ordered(Vec::new()),
                WatcherBehaviour::Eager => Holding::Eager(None),
            },
            ready: false,
            killed: false,
        }
    }

    /// Whether the watcher has been killed.
    pub fn is_killed(&self) -> (r: bool)
        ensures
            r == self@.killed,
    {
        self.killed
    }

    /// Whether a wait would complete now: a delivery is held or the signal
    /// is set. The caller suspends while this is false.
    pub fn poll_ready(&self) -> (r: bool)
        ensures
            r == self@.can_complete(),
    {
        let held = match &self.holding {
            Holding::Ordered(q) => q.len() > 0,
            Holding::Eager(s) => s.is_some(),
        };
        held || self.ready
    }

    /// Deposits a delivery without signaling: the first phase of a
    /// coordinated notify.
    pub fn wake_without_notify(&mut self, nvalue: Option<Value>)
        ensures
            final(self)@ == old(self)@.deposited(nvalue.deep_view()),
    {
        match &mut self.holding {
            Holding::Ordered(q) => {
                q.push(nvalue);
                assert(final(self)@.queue =~= old(self)@.queue.push(nvalue.deep_view()));
            },
            Holding::Eager(s) => {
                *s = Some(nvalue);
            },
        }
    }

    /// Sets the wake signal: the second phase of a coordinated notify.
    pub fn signal(&mut self)
        ensures
            final(self)@ == old(self)@.signaled(),
    {
        self.ready = true;
    }

    /// Deposits a delivery and signals.
    pub fn wake(&mut self, nvalue: Option<Value>)
        ensures
            final(self)@ == old(self)@.deposited(nvalue.deep_view()).signaled(),
    {
        self.wake_without_notify(nvalue);
        self.signal();
    }

    /// Kills the watcher: sets the flag, then wakes with an empty delivery
    /// so an outstanding wait returns at once.
    pub fn kill(&mut self)
        ensures
            final(self)@ == (WatcherView {
                killed: true,
                ..old(self)@
            }).deposited(None).signaled(),
    {
        self.killed = true;
        self.wake(None);
    }

    /// Takes a pending delivery without waiting: the front of the queue, or
    /// the slot's content; an empty delivery and an empty holding both come
    /// out as nothing.
    pub fn force_recv(&mut self) -> (r: Option<Value>)
        ensures
            old(self)@.ordered ==> {
                &&& final(self)@.ordered
                &&& final(self)@.ready == old(self)@.ready
                &&& final(self)@.killed == old(self)@.killed
                &&& if old(self)@.queue.len() == 0 {
                    r is None && final(self)@.queue == old(self)@.queue
                } else {
                    r.deep_view() == old(self)@.queue[0] && final(self)@.queue == old(
                        self,
                    )@.queue.skip(1)
                }
            },
            !old(self)@.ordered ==> {
                &&& !final(self)@.ordered
                &&& final(self)@.ready == old(self)@.ready
                &&& final(self)@.killed == old(self)@.killed
                &&& final(self)@.slot is None
                &&& match old(self)@.slot {
                    Option::Some(d) => r.deep_view() == d,
                    Option::None => r is None,
                }
            },
    {
        match &mut self.holding {
            Holding::Eager(value) => {
                match value.take() {
                    Some(d) => d,
                    None => None,
                }
            },
            Holding::Ordered(value) => {
                if value.len() == 0 {
                    None
                } else {
                    let r = value.remove(0);
                    assert(final(self)@.queue =~= old(self)@.queue.skip(1));
                    r
                }
            },
        }
    }

    /// Completes a wait. If a delivery is pending it is taken and the signal
    /// is left as it is; otherwise the signal is consumed and the empty
    /// holding yields nothing, which is how a kill reaches the subscriber.
    /// The caller suspends until `can_complete` holds before calling.
    pub fn wait(&mut self) -> (r: Option<Value>)
        requires
            old(self)@.can_complete(),
        ensures
            r.deep_view() == old(self)@.delivery(),
            final(self)@ == old(self)@.after_wait(),
            final(self)@.ordered == old(self)@.ordered,
            final(self)@.killed == old(self)@.killed,
            old(self)@.ordered ==> {
                &&& if old(self)@.queue.len() > 0 {
                    r.deep_view() == old(self)@.queue[0] && final(self)@.queue == old(
                        self,
                    )@.queue.skip(1) && final(self)@.ready == old(self)@.ready
                } else {
                    r is None && final(self)@.queue == old(self)@.queue && !final(self)@.ready
                }
            },
            !old(self)@.ordered ==> {
                &&& final(self)@.slot is None
                &&& match old(self)@.slot {
                    Option::Some(d) => r.deep_view() == d && final(self)@.ready == old(
                        self,
                    )@.ready,
                    Option::None => r is None && !final(self)@.ready,
                }
            },
    {
        match &mut self.holding {
            Holding::Eager(value) => {
                if value.is_some() {
                    match value.take() {
                        Some(d) => d,
                        None => None,
                    }
                } else {
                    self.ready = false;
                    None
                }
            },
            Holding::Ordered(value) => {
                if value.len() > 0 {
                    let r = value.remove(0);
                    assert(final(self)@.queue =~= old(self)@.queue.skip(1));
                    r
                } else {
                    self.ready = false;
                    None
                }
            },
        }
    }

    /// Notifies a whole group atomically with respect to consumers: every
    /// watcher receives its deposit before any one of them is signaled.
    pub fn notify_coordinated(watchers: &mut Vec<Watcher>, value: &Option<Value>)
        ensures
            final(watchers)@.len() == old(watchers)@.len(),
            forall|i: int|
                0 <= i < old(watchers)@.len() ==> final(watchers)@[i]@ == old(
                    watchers,
                )@[i]@.deposited(value.deep_view()).signaled(),
    {
        let ghost orig = watchers@;
        let n = watchers.len();
        let mut i: usize = 0;
        while i < n
            invariant
                n == watchers@.len() == orig.len(),
                i <= n,
                forall|j: int| i <= j < n ==> watchers@[j] == orig[j],
                forall|j: int|
                    0 <= j < i ==> watchers@[j]@ == orig[j]@.deposited(value.deep_view()),
            decreases n - i,
        {
            let v = duplicate_opt_value(value);
            let w = &mut watchers[i];
            w.wake_without_notify(v);
            i = i + 1;
        }
        let mut i: usize = 0;
        while i < n
            invariant
                n == watchers@.len() == orig.len(),
                i <= n,
                forall|j: int|
                    i <= j < n ==> watchers@[j]@ == orig[j]@.deposited(value.deep_view()),
                forall|j: int|
                    0 <= j < i ==> watchers@[j]@ == orig[j]@.deposited(value.deep_view()).signaled(),
            decreases n - i,
        {
            let w = &mut watchers[i];
            w.signal();
            i = i + 1;
        }
    }
}

/// After one coordinated notify of `v`, the group agrees on `v`: every
/// eager member holds exactly `v` in its slot, and every ordered member has
/// `v` as its newest queued delivery. Once the group is quiescent, all
/// subscribers of the key see the same value for this one mutation.
pub proof fn lemma_coordinated_agreement(
    before: Seq<WatcherView>,
    after: Seq<WatcherView>,
    v: Option<ValueView>,
)
    requires
        before.len() == after.len(),
        forall|i: int| 0 <= i < before.len() ==> after[i] == before[i].deposited(v).signaled(),
    ensures
        forall|i: int|
            0 <= i < after.len() && !before[i].ordered ==> after[i].slot == Some(v),
        forall|i: int|
            0 <= i < after.len() && before[i].ordered ==> after[i].queue.last() == v,
        forall|i: int| 0 <= i < after.len() ==> after[i].ready,
{
}

/// A copy of an optional value, equal at the view level.
pub fn duplicate_opt_value(v: &Option<Value>) -> (r: Option<Value>)
    ensures
        r.deep_view() == v.deep_view(),
        r is Some <==> v is Some,
{
    match v {
        Option::None => None,
        Option::Some(inner) => Some(inner.duplicate()),
    }
}

} // verus!
