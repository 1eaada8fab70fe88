//! Playing a chart: the actions of a song, performed in time order.
use vstd::prelude::*;

verus! {

broadcast use vstd::seq_lib::group_to_multiset_ensures;

/// An action of a chart, to be performed once the song reaches `start_time`.
///
/// `start_time` is an order key of the beat: a later beat has a larger key.
/// `group_number` names the enemy group that the action applies to.
#[derive(Debug, Clone)]
pub struct BeatAction<A> {
    pub start_time: u64,
    pub group_number: usize,
    pub action: A,
}

impl<A> BeatAction<A> {
    /// An action performed at `start_time` on the group `group_number`.
    pub fn new(start_time: u64, group_number: usize, action: A) -> (res: BeatAction<A>)
        ensures
            res.start_time == start_time,
            res.group_number == group_number,
            res.action == action,
    {
        BeatAction { start_time, group_number, action }
    }
}

/// The keys of `q` do not grow from front to back.
pub open spec fn sorted_latest_first<A>(q: Seq<BeatAction<A>>) -> bool {
    forall|i: int, j: int| 0 <= i <= j < q.len() ==> #[trigger] q[i].start_time >= #[trigger] q[j].start_time
}

/// The keys of `q` do not shrink from front to back.
pub open spec fn sorted_earliest_first<A>(q: Seq<BeatAction<A>>) -> bool {
    forall|i: int, j: int| 0 <= i <= j < q.len() ==> #[trigger] q[i].start_time <= #[trigger] q[j].start_time
}

/// How many actions at the front of `q` are not yet due at `time`.
pub open spec fn not_due_count<A>(q: Seq<BeatAction<A>>, time: u64) -> nat
    decreases q.len(),
{
    if q.len() == 0 {
        0
    } else if q[0].start_time >= time {
        1 + not_due_count(q.drop_first(), time)
    } else {
        0
    }
}

/// The actions of the queue `q` that are still pending after the song reached `time`.
pub open spec fn pending_after<A>(q: Seq<BeatAction<A>>, time: u64) -> Seq<BeatAction<A>> {
    q.take(not_due_count(q, time) as int)
}

/// The actions of the queue `q` that are due at `time`, in the order in which
/// they are performed.
pub open spec fn due_at<A>(q: Seq<BeatAction<A>>, time: u64) -> Seq<BeatAction<A>> {
    q.skip(not_due_count(q, time) as int).reverse()
}

/// In a queue with the latest action first, the actions that are not due at
/// `time` are exactly the first `not_due_count(q, time)` ones.
pub proof fn lemma_not_due_count<A>(q: Seq<BeatAction<A>>, time: u64)
    requires
        sorted_latest_first(q),
    ensures
        not_due_count(q, time) <= q.len(),
        forall|j: int| 0 <= j < not_due_count(q, time) ==> #[trigger] q[j].start_time >= time,
        forall|j: int| not_due_count(q, time) <= j < q.len() ==> #[trigger] q[j].start_time < time,
    decreases q.len(),
{
    if q.len() > 0 {
        let rest = q.drop_first();
        assert(sorted_latest_first(rest)) by {
            assert forall|i: int, j: int| 0 <= i <= j < rest.len() implies #[trigger] rest[i].start_time
                >= #[trigger] rest[j].start_time by {
                assert(rest[i] == q[i + 1] && rest[j] == q[j + 1]);
            }
        }
        lemma_not_due_count(rest, time);
        if q[0].start_time >= time {
            assert forall|j: int| 0 <= j < not_due_count(q, time) implies #[trigger] q[j].start_time >= time by {
                if j > 0 {
                    assert(q[j] == rest[j - 1]);
                }
            }
            assert forall|j: int| not_due_count(q, time) <= j < q.len() implies #[trigger] q[j].start_time < time by {
                assert(q[j] == rest[j - 1]);
            }
        } else {
            assert forall|j: int| not_due_count(q, time) <= j < q.len() implies #[trigger] q[j].start_time < time by {
                assert(q[0].start_time >= q[j].start_time);
            }
        }
    }
}

/// In a queue with the latest action first, the number of actions that are not
/// due at `time` is the unique split point between not-due and due actions.
pub proof fn lemma_not_due_count_unique<A>(q: Seq<BeatAction<A>>, time: u64, m: int)
    requires
        sorted_latest_first(q),
        0 <= m <= q.len(),
        forall|j: int| 0 <= j < m ==> #[trigger] q[j].start_time >= time,
        forall|j: int| m <= j < q.len() ==> #[trigger] q[j].start_time < time,
    ensures
        not_due_count(q, time) == m,
{
    lemma_not_due_count(q, time);
    let n = not_due_count(q, time) as int;
    if n < m {
        assert(q[n].start_time >= time);
    } else if m < n {
        assert(q[m].start_time >= time);
    }
}

/// An update never performs an action early and never holds one back: every
/// action that is due at `time` starts before it, every action left pending
/// starts at or after it, the due actions come earliest first, and the pending
/// ones stay latest first.
pub proof fn lemma_update_splits_by_time<A>(q: Seq<BeatAction<A>>, time: u64)
    requires
        sorted_latest_first(q),
    ensures
        forall|i: int| 0 <= i < due_at(q, time).len() ==> #[trigger] due_at(q, time)[i].start_time < time,
        forall|i: int| 0 <= i < pending_after(q, time).len() ==> #[trigger] pending_after(q, time)[i].start_time >= time,
        sorted_earliest_first(due_at(q, time)),
        sorted_latest_first(pending_after(q, time)),
        pending_after(q, time).len() + due_at(q, time).len() == q.len(),
{
    lemma_not_due_count(q, time);
    let n = not_due_count(q, time) as int;
    let d = due_at(q, time);
    let p = pending_after(q, time);
    assert forall|i: int| 0 <= i < d.len() implies #[trigger] d[i].start_time < time by {
        assert(d[i] == q[q.len() - 1 - i]);
    }
    assert forall|i: int| 0 <= i < p.len() implies #[trigger] p[i].start_time >= time by {
        assert(p[i] == q[i]);
    }
    assert forall|i: int, j: int| 0 <= i <= j < d.len() implies #[trigger] d[i].start_time <= #[trigger] d[j].start_time by {
        assert(d[i] == q[q.len() - 1 - i] && d[j] == q[q.len() - 1 - j]);
    }
    assert forall|i: int, j: int| 0 <= i <= j < p.len() implies #[trigger] p[i].start_time >= #[trigger] p[j].start_time by {
        assert(p[i] == q[i] && p[j] == q[j]);
    }
}

/// An update loses no action and makes none up: the pending and the due
/// actions together are the actions that were pending before.
pub proof fn lemma_update_keeps_every_action<A>(q: Seq<BeatAction<A>>, time: u64)
    requires
        sorted_latest_first(q),
    ensures
        pending_after(q, time).to_multiset().add(due_at(q, time).to_multiset()) == q.to_multiset(),
{
    lemma_not_due_count(q, time);
    let n = not_due_count(q, time) as int;
    assert(q =~= q.take(n) + q.skip(n));
    vstd::seq_lib::lemma_multiset_commutative(q.take(n), q.skip(n));
    q.skip(n).lemma_reverse_to_multiset();
}

/// Catching up in two steps is the same as catching up at once: updating at
/// `t1` and then at a later `t2` performs, in order, the same actions as one
/// update at `t2`, and leaves the same actions pending. In particular a second
/// update at the same time performs nothing.
pub proof fn lemma_update_catches_up<A>(q: Seq<BeatAction<A>>, t1: u64, t2: u64)
    requires
        sorted_latest_first(q),
        t1 <= t2,
    ensures
        pending_after(pending_after(q, t1), t2) == pending_after(q, t2),
        due_at(q, t1) + due_at(pending_after(q, t1), t2) == due_at(q, t2),
        due_at(pending_after(q, t1), t1).len() == 0,
{
    lemma_not_due_count(q, t1);
    lemma_not_due_count(q, t2);
    let n1 = not_due_count(q, t1) as int;
    let n2 = not_due_count(q, t2) as int;
    let p = pending_after(q, t1);
    lemma_update_splits_by_time(q, t1);
    lemma_not_due_count(p, t2);
    lemma_not_due_count(p, t1);
    assert(n2 <= n1) by {
        if n2 > n1 {
            assert(q[n1].start_time < t1);
        }
    }
    assert forall|j: int| 0 <= j < n2 implies #[trigger] p[j].start_time >= t2 by {
        assert(p[j] == q[j]);
    }
    assert forall|j: int| n2 <= j < p.len() implies #[trigger] p[j].start_time < t2 by {
        assert(p[j] == q[j]);
    }
    lemma_not_due_count_unique(p, t2, n2);
    lemma_not_due_count_unique(p, t1, n1);
    assert(pending_after(p, t2) =~= pending_after(q, t2));
    assert(due_at(q, t1) + due_at(p, t2) =~= due_at(q, t2)) by {
        let a = due_at(q, t1);
        let b = due_at(p, t2);
        let c = due_at(q, t2);
        assert forall|i: int| 0 <= i < c.len() implies #[trigger] c[i] == (a + b)[i] by {
            assert(c[i] == q[q.len() - 1 - i]);
            if i < a.len() {
                assert(a[i] == q[q.len() - 1 - i]);
            } else {
                assert(b[i - a.len()] == p[p.len() - 1 - (i - a.len())]);
            }
        }
    }
}

/// This struct contains all the actions of a song. It performs the actions
/// that are due every time `update` is called.
#[derive(Debug)]
pub struct Scheduler<A> {
    // Latest action first, so that the earliest action is at the back.
    work_queue: Vec<BeatAction<A>>,
}

impl<A> Scheduler<A> {
    /// The pending actions, the latest first; the back of the queue is
    /// performed first.
    pub closed spec fn queue(&self) -> Seq<BeatAction<A>> {
        self.work_queue@
    }

    /// The pending actions are held latest first.
    #[verifier::type_invariant]
    spec fn latest_first(&self) -> bool {
        sorted_latest_first(self.work_queue@)
    }

    /// How many actions are pending.
    pub fn len(&self) -> (n: usize)
        ensures
            n == self.queue().len(),
    {
        self.work_queue.len()
    }

    /// A scheduler holding the actions of a song, each to be performed at its
    /// own `start_time`.
    pub fn new(actions: Vec<BeatAction<A>>) -> (res: Scheduler<A>)
        ensures
            sorted_latest_first(res.queue()),
            res.queue().to_multiset() == actions@.to_multiset(),
    {
        let mut queue: Vec<BeatAction<A>> = Vec::new();
        let mut rest = actions;
        let ghost all = rest@;
        // Move the actions over from the back of `rest`, each to its place.
        while rest.len() > 0
            invariant
                sorted_latest_first(queue@),
                rest@ == all.take(rest@.len() as int),
                rest@.len() <= all.len(),
                queue@.to_multiset() == all.skip(rest@.len() as int).to_multiset(),
            decreases rest@.len(),
        {
            let ghost before = rest@;
            let item = rest.pop().unwrap();
            proof {
                assert(all.skip(rest@.len() as int) =~= seq![item] + all.skip(before.len() as int));
                vstd::seq_lib::lemma_multiset_commutative(seq![item], all.skip(before.len() as int));
                assert(rest@ =~= all.take(rest@.len() as int));
            }
            // The first place whose action is earlier than `item`.
            let mut pos: usize = 0;
            while pos < queue.len() && queue[pos].start_time >= item.start_time
                invariant
                    0 <= pos <= queue@.len(),
                    forall|j: int| 0 <= j < pos ==> #[trigger] queue@[j].start_time >= item.start_time,
                decreases queue@.len() - pos,
            {
                pos = pos + 1;
            }
            let ghost q0 = queue@;
            queue.insert(pos, item);
            proof {
                q0.insert_ensures(pos as int, item);
                assert forall|i: int, j: int| 0 <= i <= j < queue@.len() implies #[trigger] queue@[i].start_time
                    >= #[trigger] queue@[j].start_time by {
                    if i < pos && j < pos {
                        assert(queue@[i] == q0[i] && queue@[j] == q0[j]);
                    } else if i < pos && j == pos {
                        assert(queue@[i] == q0[i]);
                    } else if i < pos {
                        assert(queue@[i] == q0[i] && queue@[j] == q0[j - 1]);
                    } else if i == pos && j > pos {
                        assert(queue@[j] == q0[j - 1]);
                        assert(q0[pos as int].start_time < item.start_time);
                    } else if i > pos {
                        assert(queue@[i] == q0[i - 1] && queue@[j] == q0[j - 1]);
                    }
                }
            }
        }
        proof {
            assert(all.skip(0) =~= all);
        }
        Scheduler { work_queue: queue }
    }

    /// Take out the actions that are due now that the song is at `time`: every
    /// action whose `start_time` is before `time`, earliest first. The actions
    /// at or after `time` stay pending.
    pub fn update(&mut self, time: u64) -> (due: Vec<BeatAction<A>>)
        ensures
            sorted_latest_first(old(self).queue()),
            sorted_latest_first(final(self).queue()),
            final(self).queue() == pending_after(old(self).queue(), time),
            due@ == due_at(old(self).queue(), time),
    {
        proof {
            use_type_invariant(&*self);
        }
        let ghost q = self.work_queue@;
        let mut queue: Vec<BeatAction<A>> = Vec::new();
        std::mem::swap(&mut queue, &mut self.work_queue);
        let mut due: Vec<BeatAction<A>> = Vec::new();
        while queue.len() > 0 && queue[queue.len() - 1].start_time < time
            invariant
                sorted_latest_first(q),
                queue@.len() <= q.len(),
                queue@ == q.take(queue@.len() as int),
                due@ == q.skip(queue@.len() as int).reverse(),
                forall|j: int| queue@.len() <= j < q.len() ==> #[trigger] q[j].start_time < time,
            decreases queue@.len(),
        {
            let ghost n = queue@.len();
            let item = queue.pop().unwrap();
            due.push(item);
            proof {
                assert(queue@ =~= q.take(queue@.len() as int));
                assert(q.skip(queue@.len() as int) =~= seq![item] + q.skip(n as int));
                assert(due@ =~= q.skip(queue@.len() as int).reverse());
            }
        }
        proof {
            let m = queue@.len() as int;
            assert forall|j: int| 0 <= j < m implies #[trigger] q[j].start_time >= time by {
                assert(q[m - 1] == queue@[m - 1]);
                assert(q[j].start_time >= q[m - 1].start_time);
            }
            lemma_not_due_count_unique(q, time, m);
            assert forall|i: int, j: int| 0 <= i <= j < queue@.len() implies #[trigger] queue@[i].start_time
                >= #[trigger] queue@[j].start_time by {
                assert(queue@[i] == q[i] && queue@[j] == q[j]);
            }
        }
        self.work_queue = queue;
        due
    }
}

} // verus!
