//! The order of queues over time: messages leave a queue in the order in which they entered it.

use vstd::prelude::*;

use crate::keys::LogView;
use crate::message::FifoView;
use crate::message::MessageView;
use crate::message::SyncStateView;
use crate::message::TombstoneView;
use crate::store::StoreView;

verus! {

/// What can happen to a store, as seen from one queue.
pub enum QueueStep {
    /// This message was put at the back of the queue.
    Enqueued(FifoView),
    /// The front message, which has this number, was taken away.
    Acked(u64),
    /// One more attempt was counted for the front message, which has this number.
    Rejected(u64),
    /// The queue was looked at, or something else was done.
    Elsewhere,
}

/// Two stores hold the same queue.
pub open spec fn same_queue(a: StoreView, b: StoreView, queue: Seq<char>) -> bool {
    &&& a.sequence_of(queue) == b.sequence_of(queue)
    &&& forall|n: u64| #[trigger]
        a.fifo.contains_key((queue, n)) == b.fifo.contains_key((queue, n))
    &&& forall|n: u64| #[trigger]
        a.fifo.contains_key((queue, n)) ==> a.fifo[(queue, n)] == b.fifo[(queue, n)]
}

/// A step leads from what the store `a` holds to what the store `b` holds. Numbers of a queue run
/// out at the greatest one, and nothing is put into it from then on.
pub open spec fn is_step(a: StoreView, queue: Seq<char>, step: QueueStep, b: StoreView) -> bool {
    match step {
        QueueStep::Enqueued(m) => {
            &&& m.queue == queue
            &&& a.sequence_of(queue) < u64::MAX
            &&& m.sequence == crate::ids::after(a.sequence_of(queue))
            &&& b == a.enqueued(m)
        },
        QueueStep::Acked(n) => a.is_front(queue, n) && b == a.acked(queue, n),
        QueueStep::Rejected(n) => a.is_front(queue, n) && b == a.rejected(queue, n),
        QueueStep::Elsewhere => same_queue(a, b, queue),
    }
}

/// `states` is what a store holds before and after each of `steps`.
pub open spec fn is_history(
    queue: Seq<char>,
    steps: Seq<QueueStep>,
    states: Seq<StoreView>,
) -> bool {
    &&& states.len() == steps.len() + 1
    &&& forall|i: int|
        0 <= i < steps.len() ==> is_step(states[i], queue, #[trigger] steps[i], states[i + 1])
}

/// The messages that entered the queue in the first `k` steps, in order.
pub open spec fn entered(steps: Seq<QueueStep>, k: nat) -> Seq<FifoView>
    decreases k,
{
    if k == 0 {
        Seq::empty()
    } else {
        let before = entered(steps, (k - 1) as nat);
        match steps[k - 1] {
            QueueStep::Enqueued(m) => before.push(m),
            _ => before,
        }
    }
}

/// The messages that left the queue in the first `k` steps, in order.
pub open spec fn left(
    queue: Seq<char>,
    steps: Seq<QueueStep>,
    states: Seq<StoreView>,
    k: nat,
) -> Seq<FifoView>
    decreases k,
{
    if k == 0 {
        Seq::empty()
    } else {
        let before = left(queue, steps, states, (k - 1) as nat);
        match steps[k - 1] {
            QueueStep::Acked(n) => before.push(states[k - 1].fifo[(queue, n)]),
            _ => before,
        }
    }
}

/// Two messages of a queue are the same, but for the attempts that were counted.
pub open spec fn same_queued(a: FifoView, b: FifoView) -> bool {
    FifoView { attempts: 0, ..a } == (FifoView { attempts: 0, ..b })
}

/// The queue holds `line`, front first.
spec fn is_line(s: StoreView, queue: Seq<char>, line: Seq<FifoView>) -> bool {
    &&& forall|i: int|
        0 <= i < line.len() ==> s.fifo.contains_key((queue, (#[trigger] line[i]).sequence))
            && s.fifo[(queue, line[i].sequence)] == line[i] && line[i].sequence <= s.sequence_of(
            queue,
        )
    &&& forall|i: int, j: int|
        0 <= i < j < line.len() ==> (#[trigger] line[i]).sequence < (#[trigger] line[j]).sequence
    &&& forall|n: u64| #[trigger]
        s.fifo.contains_key((queue, n)) ==> exists|i: int|
            0 <= i < line.len() && (#[trigger] line[i]).sequence == n
}

/// The front of a line is the front of the queue.
proof fn lemma_front_of_line(s: StoreView, queue: Seq<char>, line: Seq<FifoView>, n: u64)
    requires
        is_line(s, queue, line),
    ensures
        s.is_front(queue, n) ==> line.len() > 0 && line[0].sequence == n,
        line.len() > 0 ==> s.is_front(queue, line[0].sequence),
        line.len() == 0 <==> s.queue_empty(queue),
{
    if line.len() > 0 {
        let first = line[0].sequence;
        assert(s.fifo.contains_key((queue, first)));
        assert forall|other: u64| #[trigger] s.fifo.contains_key((queue, other)) implies first
            <= other by {
            let i = choose|i: int| 0 <= i < line.len() && (#[trigger] line[i]).sequence == other;
            if i > 0 {
                assert(line[0].sequence < line[i].sequence);
            }
        }
    }
}

/// What a step does to a line.
spec fn next_line(step: QueueStep, line: Seq<FifoView>) -> Seq<FifoView> {
    match step {
        QueueStep::Enqueued(m) => line.push(m),
        QueueStep::Acked(_) => line.skip(1),
        QueueStep::Rejected(_) => line.update(0, line[0].attempted()),
        QueueStep::Elsewhere => line,
    }
}

proof fn lemma_next_line(
    a: StoreView,
    queue: Seq<char>,
    step: QueueStep,
    b: StoreView,
    line: Seq<FifoView>,
)
    requires
        is_line(a, queue, line),
        is_step(a, queue, step, b),
    ensures
        is_line(b, queue, next_line(step, line)),
{
    let next = next_line(step, line);
    match step {
        QueueStep::Enqueued(m) => {
            assert forall|i: int| 0 <= i < next.len() implies b.fifo.contains_key(
                (queue, (#[trigger] next[i]).sequence),
            ) && b.fifo[(queue, next[i].sequence)] == next[i] && next[i].sequence <= b.sequence_of(
                queue,
            ) by {
                if i < line.len() {
                    assert(next[i] == line[i]);
                }
            }
            assert forall|n: u64| #[trigger] b.fifo.contains_key((queue, n)) implies exists|i: int|
                0 <= i < next.len() && (#[trigger] next[i]).sequence == n by {
                if n == m.sequence {
                    assert(next[line.len() as int].sequence == n);
                } else {
                    assert(a.fifo.contains_key((queue, n)));
                    let i = choose|i: int|
                        0 <= i < line.len() && (#[trigger] line[i]).sequence == n;
                    assert(next[i].sequence == n);
                }
            }
        },
        QueueStep::Acked(n) => {
            lemma_front_of_line(a, queue, line, n);
            assert forall|i: int| 0 <= i < next.len() implies b.fifo.contains_key(
                (queue, (#[trigger] next[i]).sequence),
            ) && b.fifo[(queue, next[i].sequence)] == next[i] && next[i].sequence <= b.sequence_of(
                queue,
            ) by {
                assert(next[i] == line[i + 1]);
                assert(line[0].sequence < line[i + 1].sequence);
            }
            assert forall|other: u64| #[trigger] b.fifo.contains_key((queue, other)) implies exists|
                i: int,
            | 0 <= i < next.len() && (#[trigger] next[i]).sequence == other by {
                assert(a.fifo.contains_key((queue, other)));
                let i = choose|i: int|
                    0 <= i < line.len() && (#[trigger] line[i]).sequence == other;
                assert(i != 0);
                assert(next[i - 1].sequence == other);
            }
        },
        QueueStep::Rejected(n) => {
            lemma_front_of_line(a, queue, line, n);
            assert(a.fifo[(queue, n)] == line[0]);
            assert forall|i: int| 0 <= i < next.len() implies b.fifo.contains_key(
                (queue, (#[trigger] next[i]).sequence),
            ) && b.fifo[(queue, next[i].sequence)] == next[i] && next[i].sequence <= b.sequence_of(
                queue,
            ) by {
                assert(next[i].sequence == line[i].sequence);
                if i > 0 {
                    assert(line[0].sequence < line[i].sequence);
                }
            }
            assert forall|i: int, j: int| 0 <= i < j < next.len() implies (
            #[trigger] next[i]).sequence < (#[trigger] next[j]).sequence by {
                assert(line[i].sequence < line[j].sequence);
            }
            assert forall|other: u64| #[trigger] b.fifo.contains_key((queue, other)) implies exists|
                i: int,
            | 0 <= i < next.len() && (#[trigger] next[i]).sequence == other by {
                assert(a.fifo.contains_key((queue, other)));
                let i = choose|i: int|
                    0 <= i < line.len() && (#[trigger] line[i]).sequence == other;
                assert(next[i].sequence == other);
            }
        },
        QueueStep::Elsewhere => {
            assert forall|i: int| 0 <= i < line.len() implies b.fifo.contains_key(
                (queue, (#[trigger] line[i]).sequence),
            ) && b.fifo[(queue, line[i].sequence)] == line[i] && line[i].sequence <= b.sequence_of(
                queue,
            ) by {
                assert(a.fifo.contains_key((queue, line[i].sequence)));
            }
            assert forall|n: u64| #[trigger] b.fifo.contains_key((queue, n)) implies exists|i: int|
                0 <= i < line.len() && (#[trigger] line[i]).sequence == n by {
                assert(a.fifo.contains_key((queue, n)));
            }
        },
    }
}

/// What entered a queue is what left it, and behind that what it holds.
spec fn accounts_for(entered: Seq<FifoView>, left: Seq<FifoView>, line: Seq<FifoView>) -> bool {
    &&& entered.len() == left.len() + line.len()
    &&& forall|i: int|
        0 <= i < entered.len() ==> same_queued(#[trigger] entered[i], (left + line)[i])
}

proof fn lemma_history(
    queue: Seq<char>,
    steps: Seq<QueueStep>,
    states: Seq<StoreView>,
    k: nat,
) -> (line: Seq<FifoView>)
    requires
        is_history(queue, steps, states),
        states[0].queue_empty(queue),
        k <= steps.len(),
    ensures
        is_line(states[k as int], queue, line),
        accounts_for(entered(steps, k), left(queue, steps, states, k), line),
    decreases k,
{
    if k == 0 {
        Seq::empty()
    } else {
        let j = (k - 1) as nat;
        let before = lemma_history(queue, steps, states, j);
        let step = steps[k - 1];
        let a = states[k - 1];
        assert(is_step(states[k - 1], queue, steps[k - 1], states[k - 1 + 1]));
        lemma_next_line(a, queue, step, states[k as int], before);
        let line = next_line(step, before);
        let came = entered(steps, j);
        let went = left(queue, steps, states, j);
        let came_now = entered(steps, k);
        let went_now = left(queue, steps, states, k);
        match step {
            QueueStep::Acked(n) => {
                lemma_front_of_line(a, queue, before, n);
                assert(went_now == went.push(before[0]));
                assert(went_now + line =~= went + before);
            },
            QueueStep::Rejected(n) => {
                lemma_front_of_line(a, queue, before, n);
            },
            _ => {},
        }
        assert forall|i: int| 0 <= i < came_now.len() implies same_queued(
            #[trigger] came_now[i],
            (went_now + line)[i],
        ) by {
            if i < came.len() {
                assert(came_now[i] == came[i]);
                assert(same_queued(came[i], (went + before)[i]));
            }
        }
        line
    }
}

/// First in, first out: whatever else is done in between, the messages that leave a queue are
/// those that entered it, in the order in which they entered. At any time the front message is the
/// first one that has not left, and the queue is empty when all have.
pub proof fn law_first_in_first_out(
    queue: Seq<char>,
    steps: Seq<QueueStep>,
    states: Seq<StoreView>,
    k: nat,
)
    requires
        is_history(queue, steps, states),
        states[0].queue_empty(queue),
        k <= steps.len(),
    ensures
        ({
            let came = entered(steps, k);
            let went = left(queue, steps, states, k);
            let s = states[k as int];
            &&& went.len() <= came.len()
            &&& forall|i: int| 0 <= i < went.len() ==> same_queued(#[trigger] went[i], came[i])
            &&& went.len() == came.len() <==> s.queue_empty(queue)
            &&& forall|n: u64| #[trigger]
                s.is_front(queue, n) ==> went.len() < came.len() && same_queued(
                    s.fifo[(queue, n)],
                    came[went.len() as int],
                )
            &&& went.len() < came.len() ==> s.is_front(queue, came[went.len() as int].sequence)
        }),
{
    let line = lemma_history(queue, steps, states, k);
    let came = entered(steps, k);
    let went = left(queue, steps, states, k);
    let s = states[k as int];
    lemma_front_of_line(s, queue, line, 0);
    assert forall|i: int| 0 <= i < went.len() implies same_queued(#[trigger] went[i], came[i]) by {
        assert(same_queued(came[i], (went + line)[i]));
    }
    if line.len() > 0 {
        let at = went.len() as int;
        assert(same_queued(came[at], (went + line)[at]));
        assert((went + line)[at] == line[0]);
    }
    assert forall|n: u64| #[trigger] s.is_front(queue, n) implies went.len() < came.len()
        && same_queued(s.fifo[(queue, n)], came[went.len() as int]) by {
        lemma_front_of_line(s, queue, line, n);
    }
}

/// What is done to logs, to what is known of peers, and to other queues leaves a queue as it is.
pub proof fn law_other_work_leaves_a_queue(
    s: StoreView,
    queue: Seq<char>,
    message: MessageView,
    log: LogView,
    record: TombstoneView,
    state: SyncStateView,
    m: FifoView,
    front: u64,
)
    requires
        m.queue != queue,
    ensures
        same_queue(s, s, queue),
        same_queue(s, s.appended(message), queue),
        same_queue(s, s.replicated(message), queue),
        same_queue(s, s.tombstoned(log, record), queue),
        same_queue(s, s.with_sync(state), queue),
        same_queue(s, s.enqueued(m), queue),
        same_queue(s, s.acked(m.queue, front), queue),
        same_queue(s, s.rejected(m.queue, front), queue),
{
}

/// To look at a queue twice shows the same message, or none twice; and the message that was seen
/// in front can be taken away: the front message is the one with its identifier.
pub proof fn law_peeked_message_can_be_acked(s: StoreView, queue: Seq<char>, a: u64, b: u64)
    requires
        s.is_front(queue, a),
    ensures
        s.is_front(queue, b) ==> a == b,
        !s.queue_empty(queue),
        !crate::store::front_differs(s, queue, s.fifo[(queue, a)].id),
{
}

} // verus!
