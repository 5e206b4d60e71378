//! The work of a runtime: what waits, what is worked on, and what is told of both.

use vstd::prelude::*;
use crate::metrics::counted;
use crate::runtime::{Activity, Ended, Load, Move, Snapshot};
use crate::text;

verus! {

/// The work of a runtime.
pub struct Dispatch {
    /// The requests that are worked on.
    pub running: Vec<String>,
    /// How many requests wait.
    pub queued: usize,
    /// Whether the service is asked for requests.
    pub polling: bool,
    /// How many requests may wait.
    pub capacity: usize,
    /// How many requests may be worked on.
    pub concurrency: usize,
}

/// The work of a runtime, and what is told of it.
#[verifier::ext_equal]
pub struct WorkView {
    pub running: Seq<Seq<char>>,
    pub queued: int,
    pub polling: bool,
    pub capacity: int,
    pub concurrency: int,
    /// The requests of which is told that they are worked on.
    pub active: Set<Seq<char>>,
    /// How many requests are told to wait.
    pub told_queued: int,
    /// How many requests are told to be there.
    pub told_in_flight: int,
}

/// Something that happens to the work of a runtime.
pub enum Step {
    /// The next request is worked on.
    Start(Seq<char>),
    /// The service is asked for requests.
    Poll,
    /// The service has sent so many requests.
    Receive(int),
    /// A request ended.
    Finish(Seq<char>),
    /// All requests are given up.
    Stop,
}

/// The requests without one of that name.
pub open spec fn without_one(items: Seq<Seq<char>>, id: Seq<char>) -> Seq<Seq<char>> {
    if items.contains(id) {
        items.remove(items.index_of_first(id)->0)
    } else {
        items
    }
}

impl WorkView {
    /// What is told is what is there: nothing is told to be worked on that is not, and no more is
    /// worked on than may be.
    pub open spec fn wf(self) -> bool {
        &&& self.running.len() <= self.concurrency
        &&& 0 <= self.queued
        &&& forall|id: Seq<char>| #[trigger] self.active.contains(id) ==> self.running.contains(id)
        &&& self.told_queued == self.queued
        &&& self.told_in_flight == self.running.len() + self.queued
    }

    /// What is done next.
    pub open spec fn next_of(self) -> Move {
        if self.running.len() < self.concurrency && self.queued > 0 {
            Move::Start
        } else if !self.polling && self.queued < self.capacity {
            Move::Poll((self.capacity - self.queued) as usize)
        } else {
            Move::Wait
        }
    }

    /// Whether something can happen next.
    pub open spec fn allows(self, step: Step) -> bool {
        match step {
            Step::Start(_) => self.next_of() == Move::Start,
            Step::Poll => self.next_of() is Poll,
            Step::Receive(count) => self.polling && count >= 0,
            _ => true,
        }
    }

    /// After something has happened.
    pub open spec fn after(self, step: Step) -> WorkView {
        match step {
            Step::Start(id) => WorkView {
                running: self.running.push(id),
                queued: self.queued - 1,
                active: self.active.insert(id),
                told_queued: self.queued - 1,
                ..self
            },
            Step::Poll => WorkView { polling: true, ..self },
            Step::Receive(count) => WorkView {
                queued: self.queued + count,
                polling: false,
                told_queued: self.queued + count,
                told_in_flight: self.running.len() + self.queued + count,
                ..self
            },
            Step::Finish(id) => WorkView {
                running: without_one(self.running, id),
                active: self.active.remove(id),
                told_in_flight: without_one(self.running, id).len() + self.queued,
                ..self
            },
            Step::Stop => WorkView {
                running: Seq::empty(),
                queued: 0,
                polling: false,
                active: Set::empty(),
                told_queued: 0,
                told_in_flight: 0,
                ..self
            },
        }
    }

    /// Whether some steps can happen one after the other.
    pub open spec fn allows_all(self, steps: Seq<Step>) -> bool
        decreases steps.len(),
    {
        steps.len() == 0 || {
            &&& self.allows(steps[0])
            &&& self.after(steps[0]).allows_all(steps.drop_first())
        }
    }

    /// After some steps.
    pub open spec fn after_all(self, steps: Seq<Step>) -> WorkView
        decreases steps.len(),
    {
        if steps.len() == 0 {
            self
        } else {
            self.after(steps[0]).after_all(steps.drop_first())
        }
    }
}

impl Dispatch {
    /// Whether the requests can be counted.
    pub open spec fn wf(self) -> bool {
        self.running@.len() + self.queued <= usize::MAX
    }

    /// The work, and what a snapshot tells of it.
    pub open spec fn told(self, snapshot: Snapshot) -> WorkView {
        WorkView {
            running: text::views(self.running@),
            queued: self.queued as int,
            polling: self.polling,
            capacity: self.capacity as int,
            concurrency: self.concurrency as int,
            active: snapshot.activity.active@.dom(),
            told_queued: snapshot.activity.queued as int,
            told_in_flight: snapshot.in_flight as int,
        }
    }

    /// Nothing waits and nothing is worked on.
    pub fn new(capacity: usize, concurrency: usize) -> (result: Dispatch)
        ensures
            result.wf(),
            result.running@.len() == 0 && result.queued == 0 && !result.polling,
            result.capacity == capacity && result.concurrency == concurrency,
    {
        Dispatch { running: Vec::new(), queued: 0, polling: false, capacity, concurrency }
    }

    /// How busy the runtime is.
    pub fn load(&self) -> (result: Load)
        ensures
            result.working == self.running@.len(),
            result == (Load {
                working: result.working,
                queued: self.queued,
                capacity: self.capacity,
                concurrency: self.concurrency,
                polling: self.polling,
            }),
    {
        Load {
            working: self.running.len(),
            queued: self.queued,
            capacity: self.capacity,
            concurrency: self.concurrency,
            polling: self.polling,
        }
    }

    /// What is done next.
    pub fn next(&self) -> (result: Move)
        ensures
            forall|snapshot: Snapshot| result == (#[trigger] self.told(snapshot)).next_of(),
    {
        assert(text::views(self.running@).len() == self.running@.len());
        self.load().next()
    }

    /// The next request is worked on.
    pub fn start(&mut self, snapshot: Snapshot, id: &str, now: u64) -> (result: Snapshot)
        requires
            old(self).wf(),
            old(self).told(snapshot).next_of() == Move::Start,
        ensures
            final(self).wf(),
            final(self).told(result) == old(self).told(snapshot).after(Step::Start(id@)),
            result.activity.active@ == snapshot.activity.active@.insert(id@, now),
            result == (Snapshot {
                activity: (Activity {
                    queued: result.activity.queued,
                    active: result.activity.active,
                    dequeued: counted(snapshot.activity.dequeued, 1),
                    last_dequeue: now,
                    last_start: now,
                    ..snapshot.activity
                }),
                ..snapshot
            }),
    {
        let ghost before = self.told(snapshot);
        self.queued = self.queued - 1;
        self.running.push(id.to_owned());
        let Snapshot { activity, .. } = snapshot;
        let result = Snapshot { activity: activity.start(id, self.queued, now), ..snapshot };
        assert(self.told(result) =~= before.after(Step::Start(id@)));
        result
    }

    /// The service is asked for requests.
    pub fn poll(&mut self)
        requires
            old(self).wf(),
        ensures
            final(self).wf(),
            forall|snapshot: Snapshot|
                (#[trigger] final(self).told(snapshot)) == old(self).told(snapshot).after(Step::Poll),
    {
        self.polling = true;
    }

    /// The service has sent so many requests.
    pub fn receive(&mut self, snapshot: Snapshot, count: usize, now: u64) -> (result: Snapshot)
        requires
            old(self).running@.len() + old(self).queued + count <= usize::MAX,
        ensures
            final(self).wf(),
            final(self).told(result) == old(self).told(snapshot).after(Step::Receive(count as int)),
            result == (Snapshot {
                in_flight: result.in_flight,
                activity: (Activity {
                    queued: result.activity.queued,
                    enqueued: counted(snapshot.activity.enqueued, count as u64),
                    last_enqueue: if count > 0 {
                        now
                    } else {
                        snapshot.activity.last_enqueue
                    },
                    ..snapshot.activity
                }),
                ..snapshot
            }),
    {
        let ghost before = self.told(snapshot);
        self.queued = self.queued + count;
        self.polling = false;
        let Snapshot { activity, .. } = snapshot;
        let in_flight: usize = self.running.len() + self.queued;
        let result = Snapshot {
            in_flight,
            activity: activity.enqueue(count, self.queued, now),
            ..snapshot
        };
        assert(self.told(result) =~= before.after(Step::Receive(count as int)));
        result
    }

    fn remove(&mut self, id: &str)
        requires
            old(self).wf(),
        ensures
            final(self).wf(),
            text::views(final(self).running@) == without_one(text::views(old(self).running@), id@),
            *final(self) == (Dispatch { running: final(self).running, ..*old(self) }),
    {
        let ghost all = text::views(self.running@);
        let mut index: usize = 0;
        while index < self.running.len()
            invariant
                index <= self.running@.len(),
                *self == *old(self),
                old(self).wf(),
                all == text::views(self.running@),
                forall|i: int| 0 <= i < index ==> #[trigger] all[i] != id@,
            decreases self.running.len() - index,
        {
            assert(all[index as int] == self.running@[index as int]@);
            if text::same(&self.running[index], id) {
                proof {
                    assert(all.contains(id@)) by {
                        assert(all[index as int] == id@);
                    }
                    all.index_of_first_ensures(id@);
                    let first = all.index_of_first(id@)->0;
                    assert(first == index as int) by {
                        if first < index {
                            assert(all[first] == id@);
                        }
                    }
                }
                let _ = self.running.remove(index);
                assert(text::views(self.running@) =~= all.remove(index as int));
                return;
            }
            index = index + 1;
        }
        assert(!all.contains(id@));
    }

    /// A request ended.
    pub fn finish(&mut self, snapshot: Snapshot, id: &str, ended: Ended, now: u64) -> (result:
        Snapshot)
        requires
            old(self).wf(),
        ensures
            final(self).wf(),
            final(self).told(result) == old(self).told(snapshot).after(Step::Finish(id@)),
            result.activity.active@ == snapshot.activity.active@.remove(id@),
            result == (Snapshot {
                in_flight: result.in_flight,
                activity: (Activity {
                    active: result.activity.active,
                    last_completion: now,
                    last_failed: ended != Ended::Completed,
                    ..snapshot.activity
                }),
                completed: if ended == Ended::Completed {
                    counted(snapshot.completed, 1)
                } else {
                    snapshot.completed
                },
                expired: if ended == Ended::Expired {
                    counted(snapshot.expired, 1)
                } else {
                    snapshot.expired
                },
                failed: if ended == Ended::Failed {
                    counted(snapshot.failed, 1)
                } else {
                    snapshot.failed
                },
                ..snapshot
            }),
    {
        let ghost before = self.told(snapshot);
        self.remove(id);
        let in_flight: usize = self.running.len() + self.queued;
        let result = snapshot.finish(id, ended, in_flight, now);
        assert(text::views(self.running@).len() == self.running@.len());
        assert(self.told(result) =~= before.after(Step::Finish(id@)));
        result
    }

    /// All requests are given up.
    pub fn stop(&mut self, snapshot: Snapshot) -> (result: Snapshot)
        ensures
            final(self).wf(),
            final(self).told(result) == old(self).told(snapshot).after(Step::Stop),
            result == (Snapshot {
                in_flight: 0,
                activity: (Activity {
                    queued: 0,
                    active: result.activity.active,
                    ..snapshot.activity
                }),
                ..snapshot
            }),
    {
        let ghost before = self.told(snapshot);
        self.running = Vec::new();
        self.queued = 0;
        self.polling = false;
        let Snapshot { activity, .. } = snapshot;
        let result = Snapshot { in_flight: 0, activity: activity.stop(), ..snapshot };
        assert(self.told(result) =~= before.after(Step::Stop));
        result
    }
}

/// A runtime that does its first work tells of none.
pub proof fn lemma_begins(dispatch: Dispatch, snapshot: Snapshot)
    requires
        dispatch.running@.len() == 0 && dispatch.queued == 0,
        snapshot.activity.is_new(),
        snapshot.in_flight == 0,
    ensures
        dispatch.told(snapshot).wf(),
{
}

proof fn lemma_step_kept(work: WorkView, step: Step)
    requires
        work.wf(),
        work.allows(step),
    ensures
        work.after(step).wf(),
{
    let next = work.after(step);
    match step {
        Step::Start(id) => {
            assert forall|other: Seq<char>| #[trigger]
                next.active.contains(other) implies next.running.contains(other) by {
                if other == id {
                    assert(next.running[work.running.len() as int] == id);
                } else {
                    assert(work.active.contains(other));
                    let i = choose|i: int|
                        0 <= i < work.running.len() && work.running[i] == other;
                    assert(next.running[i] == other);
                }
            }
        },
        Step::Finish(id) => {
            if work.running.contains(id) {
                work.running.index_of_first_ensures(id);
                let at = work.running.index_of_first(id)->0;
                assert forall|other: Seq<char>| #[trigger]
                    next.active.contains(other) implies next.running.contains(other) by {
                    assert(work.active.contains(other));
                    let i = choose|i: int|
                        0 <= i < work.running.len() && work.running[i] == other;
                    if i < at {
                        assert(next.running[i] == other);
                    } else {
                        assert(next.running[i - 1] == other);
                    }
                }
            }
        },
        _ => {},
    }
}

/// Whatever happens to the work of a runtime, no more requests are told to be worked on than may be, and
/// what is told of those that wait and those that are there is true.
pub proof fn lemma_work_told(work: WorkView, steps: Seq<Step>)
    requires
        work.wf(),
        work.allows_all(steps),
    ensures
        work.after_all(steps).wf(),
        work.after_all(steps).concurrency == work.concurrency,
        work.after_all(steps).active.finite(),
        work.after_all(steps).active.len() <= work.concurrency,
    decreases steps.len(),
{
    if steps.len() == 0 {
        work.running.lemma_cardinality_of_set();
        assert(work.active.subset_of(work.running.to_set()));
        vstd::set_lib::lemma_len_subset(work.active, work.running.to_set());
    } else {
        lemma_step_kept(work, steps[0]);
        lemma_work_told(work.after(steps[0]), steps.drop_first());
    }
}

/// The service is asked only where there is room, for as many requests as there is room for, and not
/// while it is asked already.
pub proof fn lemma_polls_with_room(work: WorkView)
    requires
        work.allows(Step::Poll),
        work.queued >= 0,
        work.capacity <= usize::MAX,
    ensures
        work.queued < work.capacity,
        !work.polling,
        work.next_of() == Move::Poll((work.capacity - work.queued) as usize),
{
}

/// Where the service sends no more than it was asked for, no more requests wait than may, whatever was
/// started or ended in between.
pub proof fn lemma_queue_bounded(work: WorkView, queued: int, count: int)
    requires
        work.allows(Step::Poll),
        0 <= queued <= work.queued,
        work.capacity <= usize::MAX,
        work.next_of() matches Move::Poll(limit) && 0 <= count <= limit,
    ensures
        (WorkView { queued, ..work.after(Step::Poll) }).after(Step::Receive(count)).queued
            <= work.capacity,
{
}

/// After all was given up nothing is told to be there, whatever happened before.
pub proof fn lemma_nothing_left(work: WorkView, steps: Seq<Step>)
    ensures
        ({
            let last = work.after_all(steps).after(Step::Stop);
            last.told_in_flight == 0 && last.told_queued == 0 && last.active == Set::<
                Seq<char>,
            >::empty()
        }),
{
}

/// What a step does: starting takes one from the queue, receiving adds to it and ends the poll, finishing takes one off,
/// stopping all.
pub proof fn lemma_steps_change(work: WorkView, id: Seq<char>, count: int)
    ensures
        work.after(Step::Start(id)).running == work.running.push(id) && work.after(Step::Start(id)).queued
            == work.queued - 1 && work.after(Step::Start(id)).active.contains(id),
        work.after(Step::Poll).polling && work.after(Step::Poll).queued == work.queued,
        work.after(Step::Receive(count)).queued == work.queued + count && !work.after(
            Step::Receive(count),
        ).polling && work.after(Step::Receive(count)).running == work.running,
        !work.after(Step::Finish(id)).active.contains(id) && work.after(Step::Finish(id)).queued == work.queued,
        work.running.contains(id) ==> work.after(Step::Finish(id)).running.len() == work.running.len() - 1,
        !work.running.contains(id) ==> work.after(Step::Finish(id)).running == work.running,
        work.after(Step::Stop).running.len() == 0 && work.after(Step::Stop).queued == 0 && !work.after(
            Step::Stop,
        ).polling,
{
    if work.running.contains(id) {
        let at = work.running.index_of_first(id);
        work.running.index_of_first_ensures(id);
        assert(0 <= at->0 < work.running.len());
    }
}

/// What is done next: a start while there is room and something waits, else a poll for what still fits, else a wait.
pub proof fn lemma_next_step(work: WorkView)
    ensures
        work.running.len() < work.concurrency && work.queued > 0 ==> work.next_of() == Move::Start,
        (work.running.len() >= work.concurrency || work.queued <= 0) && !work.polling && work.queued
            < work.capacity ==> work.next_of() == Move::Poll((work.capacity - work.queued) as usize),
        (work.running.len() >= work.concurrency || work.queued <= 0) && (work.polling || work.queued
            >= work.capacity) ==> work.next_of() == Move::Wait,
{
}

} // verus!
