//! The delayer's queue: payloads wait, ordered by deadline, and leave
//! earliest-deadline first. The task that sleeps and re-transmits runs
//! outside the verified core and only pushes and pops here.

use vstd::prelude::*;

verus! {

/// One delayed payload and the deadline of its re-transmission, in
/// microseconds of the back end's clock.
#[derive(Clone, Debug)]
pub struct QueuedPacket {
    pub time: u64,
    pub payload: Vec<u8>,
}

/// Where a new deadline goes: after every queued item whose deadline is
/// not later.
pub open spec fn spec_upper_bound(s: Seq<QueuedPacket>, t: u64) -> int
    decreases s.len(),
{
    if s.len() == 0 {
        0
    } else if s[0].time <= t {
        1 + spec_upper_bound(s.skip(1), t)
    } else {
        0
    }
}

/// The deadline-ordered queue of delayed payloads.
#[derive(Clone, Debug)]
pub struct DelayQueue {
    pub items: Vec<QueuedPacket>,
}

impl DelayQueue {
    /// The queue is well formed when its items stand in deadline order.
    pub open spec fn wf(self) -> bool {
        forall|i: int, j: int|
            0 <= i < j < self.items@.len() ==> #[trigger] self.items@[i].time
                <= #[trigger] self.items@[j].time
    }

    /// The empty queue.
    pub fn new() -> (r: DelayQueue)
        ensures
            r.wf(),
            r.items@.len() == 0,
    {
        DelayQueue { items: Vec::new() }
    }

    /// How many payloads wait.
    pub fn len(&self) -> (r: usize)
        ensures
            r == self.items@.len(),
    {
        self.items.len()
    }

    /// The upper bound stays inside the queue.
    proof fn lemma_upper_bound_range(s: Seq<QueuedPacket>, t: u64)
        ensures
            0 <= spec_upper_bound(s, t) <= s.len(),
            forall|i: int|
                0 <= i < spec_upper_bound(s, t) ==> #[trigger] s[i].time <= t,
            spec_upper_bound(s, t) < s.len() ==> s[spec_upper_bound(s, t)].time > t,
        decreases s.len(),
    {
        if s.len() > 0 {
            DelayQueue::lemma_upper_bound_range(s.skip(1), t);
            assert(forall|i: int| 0 <= i < s.len() - 1 ==> s.skip(1)[i] == s[i + 1]);
            assert forall|i: int| 0 <= i < spec_upper_bound(s, t) implies #[trigger] s[i].time
                <= t by {
                if i > 0 {
                    assert(s.skip(1)[i - 1] == s[i]);
                }
            }
        }
    }

    /// Queue a payload for its deadline: it takes its place after every
    /// item whose deadline is not later, so items of one deadline leave in
    /// arrival order.
    pub fn push(&mut self, packet: QueuedPacket)
        requires
            old(self).wf(),
        ensures
            final(self).wf(),
            final(self).items@ == spec_push(old(self).items@, packet),
    {
        let ghost pre = self.items@;
        let t = packet.time;
        let n = self.items.len();
        let mut k: usize = 0;
        proof {
            assert(pre.skip(0) =~= pre);
        }
        while k < n && self.items[k].time <= t
            invariant
                k <= n,
                n == self.items@.len(),
                self.items@ == pre,
                spec_upper_bound(pre, t) == k + spec_upper_bound(pre.skip(k as int), t),
                forall|i: int| 0 <= i < k ==> #[trigger] pre[i].time <= t,
            decreases n - k,
        {
            proof {
                assert(pre.skip(k as int)[0] == pre[k as int]);
                assert(pre.skip(k as int).skip(1) =~= pre.skip(k + 1));
            }
            k = k + 1;
        }
        proof {
            if k == n {
                assert(pre.skip(n as int) =~= Seq::<QueuedPacket>::empty());
            } else {
                assert(pre.skip(k as int)[0] == pre[k as int]);
            }
            assert(spec_upper_bound(pre, t) == k);
        }
        self.items.insert(k, packet);
        proof {
            assert(self.items@ =~= pre.take(k as int) + seq![packet] + pre.skip(k as int));
            DelayQueue::lemma_upper_bound_range(pre, t);
            assert forall|i: int, j: int|
                0 <= i < j < self.items@.len() implies #[trigger] self.items@[i].time
                <= #[trigger] self.items@[j].time by {
                assert(forall|m: int| 0 <= m < k ==> self.items@[m] == pre[m]);
                assert(forall|m: int|
                    k < m < self.items@.len() ==> self.items@[m] == pre[m - 1]);
            }
        }
    }

    /// Take the payload with the earliest deadline, where one waits.
    pub fn pop_earliest(&mut self) -> (r: Option<QueuedPacket>)
        requires
            old(self).wf(),
        ensures
            final(self).wf(),
            old(self).items@.len() == 0 ==> r is None && final(self).items@ == old(self).items@,
            old(self).items@.len() > 0 ==> ({
                &&& match r {
                    Some(p) => p == old(self).items@[0],
                    None => false,
                }
                &&& final(self).items@ == old(self).items@.skip(1)
                &&& forall|i: int|
                    0 <= i < old(self).items@.len() ==> old(self).items@[0].time
                        <= #[trigger] old(self).items@[i].time
            }),
    {
        if self.items.len() == 0 {
            return None;
        }
        let p = self.items.remove(0);
        proof {
            assert(self.items@ =~= old(self).items@.skip(1));
        }
        Some(p)
    }
}

/// Strictly later deadlines join at the tail: queuing a payload whose
/// deadline exceeds every queued one appends it, so submissions with
/// rising deadlines leave in submission order.
pub proof fn lemma_push_monotonic(q: DelayQueue, packet: QueuedPacket)
    requires
        q.wf(),
        forall|i: int| 0 <= i < q.items@.len() ==> #[trigger] q.items@[i].time < packet.time,
    ensures
        spec_upper_bound(q.items@, packet.time) == q.items@.len(),
        q.items@.take(spec_upper_bound(q.items@, packet.time)) + seq![packet] + q.items@.skip(
            spec_upper_bound(q.items@, packet.time),
        ) =~= q.items@.push(packet),
{
    DelayQueue::lemma_upper_bound_range(q.items@, packet.time);
    if spec_upper_bound(q.items@, packet.time) < q.items@.len() {
        assert(q.items@[spec_upper_bound(q.items@, packet.time)].time > packet.time);
    }
}

} // verus!

verus! {

/// What queuing one payload does to the queue's contents.
pub open spec fn spec_push(s: Seq<QueuedPacket>, packet: QueuedPacket) -> Seq<QueuedPacket> {
    let k = spec_upper_bound(s, packet.time);
    s.take(k) + seq![packet] + s.skip(k)
}

/// What queuing a sequence of payloads, in order, does to the queue's
/// contents.
pub open spec fn spec_push_all(s: Seq<QueuedPacket>, items: Seq<QueuedPacket>) -> Seq<
    QueuedPacket,
>
    decreases items.len(),
{
    if items.len() == 0 {
        s
    } else {
        spec_push_all(spec_push(s, items[0]), items.skip(1))
    }
}

/// Whether the items stand in deadline order.
pub open spec fn spec_sorted(s: Seq<QueuedPacket>) -> bool {
    forall|i: int, j: int|
        0 <= i < j < s.len() ==> #[trigger] s[i].time <= #[trigger] s[j].time
}

/// Whether every queued deadline comes before every submitted one.
pub open spec fn spec_all_before(s: Seq<QueuedPacket>, items: Seq<QueuedPacket>) -> bool {
    forall|i: int, j: int|
        0 <= i < s.len() && 0 <= j < items.len() ==> #[trigger] s[i].time < #[trigger] items[j].time
}

/// Whether the submissions carry strictly rising deadlines.
pub open spec fn spec_strictly_rising(items: Seq<QueuedPacket>) -> bool {
    forall|i: int, j: int|
        0 <= i < j < items.len() ==> #[trigger] items[i].time < #[trigger] items[j].time
}

/// Submissions with strictly rising deadlines, queued after everything
/// earlier, simply append in submission order.
proof fn lemma_push_all_appends(s: Seq<QueuedPacket>, items: Seq<QueuedPacket>)
    requires
        spec_sorted(s),
        spec_all_before(s, items),
        spec_strictly_rising(items),
    ensures
        spec_push_all(s, items) == s + items,
    decreases items.len(),
{
    if items.len() == 0 {
        assert(spec_push_all(s, items) =~= s + items);
    } else {
        let h = items[0];
        let t = items.skip(1);
        assert(forall|j: int| 0 <= j < t.len() ==> t[j] == items[j + 1]);
        // The head joins at the tail: every queued deadline is earlier.
        DelayQueue::lemma_upper_bound_range(s, h.time);
        if spec_upper_bound(s, h.time) < s.len() {
            assert(s[spec_upper_bound(s, h.time)].time > h.time);
        }
        assert(spec_upper_bound(s, h.time) == s.len());
        assert(spec_push(s, h) =~= s.push(h)) by {
            assert(s.take(s.len() as int) =~= s);
            assert(s.skip(s.len() as int) =~= Seq::<QueuedPacket>::empty());
        }
        let s2 = s.push(h);
        assert(spec_sorted(s2)) by {
            assert(forall|i: int| 0 <= i < s.len() ==> s2[i] == s[i]);
            assert(s2[s.len() as int] == h);
        }
        assert(spec_all_before(s2, t)) by {
            assert(forall|i: int| 0 <= i < s.len() ==> s2[i] == s[i]);
            assert(s2[s.len() as int] == h);
        }
        lemma_push_all_appends(s2, t);
        assert(s2 + t =~= s + items);
    }
}

/// The delayer transmits strictly monotonic submissions in submission
/// order: queued onto an empty queue, payloads whose deadlines strictly
/// rise stand in exactly their submission order, so the
/// earliest-deadline pops hand them back first to last, each once.
pub proof fn lemma_monotonic_submissions_in_order(items: Seq<QueuedPacket>)
    requires
        spec_strictly_rising(items),
    ensures
        spec_push_all(Seq::empty(), items) == items,
{
    lemma_push_all_appends(Seq::empty(), items);
    assert(Seq::<QueuedPacket>::empty() + items =~= items);
}

} // verus!
