//! A simple cooperative round-robin scheduler.
//!
//! Not preemptive and without context switches: each task is a body called with its
//! iteration number; a body that returns `true` stays scheduled, `false` ends the task.
//! The bodies themselves are kept by the caller; the scheduler names each by a slot number.

use vstd::prelude::*;
use std::collections::VecDeque;
use crate::text::string_of;

verus! {

/// A scheduled task: its name, how many times it has run, and the slot of its body.
pub struct Task {
    pub name: String,
    pub iteration: u32,
    pub body: usize,
}

/// What a task is, by value.
pub struct TaskView {
    pub name: Seq<char>,
    pub iteration: u32,
    pub body: usize,
}

impl View for Task {
    type V = TaskView;

    open spec fn view(&self) -> TaskView {
        TaskView { name: self.name@, iteration: self.iteration, body: self.body }
    }
}

/// The tasks waiting to run, in the order they will run.
pub struct Scheduler {
    queue: VecDeque<Task>,
}

/// The views of a queue of tasks.
pub open spec fn task_views(q: Seq<Task>) -> Seq<TaskView> {
    Seq::new(q.len(), |i: int| q[i]@)
}

impl Scheduler {
    /// The tasks waiting to run, first to run first.
    pub closed spec fn queue_spec(&self) -> Seq<TaskView> {
        task_views(self.queue@)
    }

    /// An empty scheduler.
    pub fn new() -> (s: Self)
        ensures
            s.queue_spec() == Seq::<TaskView>::empty(),
    {
        let s = Self { queue: VecDeque::new() };
        s
    }

    /// Adds a task named `name` whose body is in slot `body`, at the back of the queue,
    /// not yet run.
    pub fn spawn(&mut self, name: &str, body: usize)
        ensures
            final(self).queue_spec() == old(self).queue_spec().push(
                TaskView { name: name@, iteration: 0, body },
            ),
    {
        self.queue.push_back(Task { name: string_of(name), iteration: 0, body });
    }

    /// Takes the task at the front of the queue to run it once more: its iteration count
    /// goes up by one. `None` when every task has ended.
    pub fn next_task(&mut self) -> (t: Option<Task>)
        requires
            old(self).queue_spec().len() > 0 ==> old(self).queue_spec()[0].iteration < u32::MAX,
        ensures
            old(self).queue_spec().len() == 0 ==> t is None && final(self).queue_spec() == old(
                self,
            ).queue_spec(),
            old(self).queue_spec().len() > 0 ==> t is Some && t->0@ == (TaskView {
                iteration: (old(self).queue_spec()[0].iteration + 1) as u32,
                ..old(self).queue_spec()[0]
            }) && final(self).queue_spec() == old(self).queue_spec().drop_first(),
    {
        match self.queue.pop_front() {
            Some(mut task) => {
                task.iteration += 1;
                Some(task)
            },
            None => {
                None
            },
        }
    }

    /// Ends a run of `task`: a task still alive goes to the back of the queue; a finished
    /// one leaves and its name is handed back.
    pub fn finish(&mut self, task: Task, alive: bool) -> (ended: Option<String>)
        ensures
            alive ==> ended is None && final(self).queue_spec() == old(self).queue_spec().push(task@),
            !alive ==> ended is Some && ended->0@ == task.name@ && final(self).queue_spec() == old(
                self,
            ).queue_spec(),
    {
        if alive {
            self.queue.push_back(task);
            None
        } else {
            Some(task.name)
        }
    }

    /// How many times the task at the front of the queue has run; `None` when the queue
    /// is empty.
    pub fn front_iteration(&self) -> (r: Option<u32>)
        ensures
            self.queue_spec().len() == 0 ==> r is None,
            self.queue_spec().len() > 0 ==> r == Some(self.queue_spec()[0].iteration),
    {
        if self.queue.len() > 0 {
            Some(self.queue[0].iteration)
        } else {
            None
        }
    }

    /// Number of tasks waiting.
    pub fn len(&self) -> (n: usize)
        ensures
            n == self.queue_spec().len(),
    {
        self.queue.len()
    }
}

/// One round-robin step: the front task runs once more and, if still alive, waits behind
/// every other task; otherwise it leaves and the others keep their order.
pub proof fn law_round_robin(q: Seq<TaskView>, alive: bool)
    requires
        q.len() > 0,
    ensures
        ({
            let ran = TaskView { iteration: (q[0].iteration + 1) as u32, ..q[0] };
            let after = if alive { q.drop_first().push(ran) } else { q.drop_first() };
            &&& after.len() == if alive { q.len() } else { (q.len() - 1) as nat }
            &&& forall|i: int| 0 <= i < q.len() - 1 ==> after[i] == q[i + 1]
            &&& alive ==> after.last() == ran
        }),
{
}

/// The task at the front of `q` after its run: its iteration count one higher.
pub open spec fn ran_task(q: Seq<TaskView>) -> TaskView {
    TaskView { iteration: (q[0].iteration + 1) as u32, ..q[0] }
}

/// The queue after the front task of `q` runs and, when `alive`, goes to the back.
pub open spec fn run_step(q: Seq<TaskView>, alive: bool) -> Seq<TaskView> {
    if alive {
        q.drop_first().push(ran_task(q))
    } else {
        q.drop_first()
    }
}

/// The tasks handed out, in order, by a run in which the bodies answer `alive` in turn, and
/// the queue left; a run stops when the queue is empty.
pub open spec fn run_trace(q: Seq<TaskView>, alive: Seq<bool>) -> (Seq<TaskView>, Seq<TaskView>)
    decreases alive.len(),
{
    if alive.len() == 0 {
        (Seq::empty(), q)
    } else {
        let (t, q1) = run_trace(q, alive.drop_last());
        if q1.len() == 0 {
            (t, q1)
        } else {
            (t.push(ran_task(q1)), run_step(q1, alive.last()))
        }
    }
}

/// How many of the tasks in `t` have the body in slot `body`.
pub open spec fn runs_of(t: Seq<TaskView>, body: usize) -> nat
    decreases t.len(),
{
    if t.len() == 0 {
        0
    } else {
        runs_of(t.drop_last(), body) + if t.last().body == body { 1nat } else { 0 }
    }
}

/// No two tasks of `q` share a body slot.
pub open spec fn distinct_bodies(q: Seq<TaskView>) -> bool {
    forall|i: int, j: int| 0 <= i < j < q.len() ==> q[i].body != q[j].body
}

proof fn lemma_runs_le(t: Seq<TaskView>, body: usize)
    ensures
        runs_of(t, body) <= t.len(),
    decreases t.len(),
{
    if t.len() > 0 {
        lemma_runs_le(t.drop_last(), body);
    }
}

proof fn lemma_runs_push(t: Seq<TaskView>, e: TaskView, body: usize)
    ensures
        runs_of(t.push(e), body) == runs_of(t, body) + if e.body == body { 1nat } else { 0 },
{
    assert(t.push(e).drop_last() =~= t);
}

/// The state of a run after `alive.len()` answers: the waiting tasks have distinct bodies and
/// each has run as often as its iteration count says, and each task handed out carried
/// the number of times its body had been run, that time included.
proof fn lemma_run_trace(q: Seq<TaskView>, alive: Seq<bool>)
    requires
        distinct_bodies(q),
        forall|i: int| 0 <= i < q.len() ==> (#[trigger] q[i]).iteration == 0,
        alive.len() < u32::MAX,
    ensures
        ({
            let (t, q1) = run_trace(q, alive);
            &&& t.len() <= alive.len()
            &&& distinct_bodies(q1)
            &&& forall|i: int| 0 <= i < q1.len() ==> (#[trigger] q1[i]).iteration == runs_of(t, q1[i].body)
            &&& forall|p: int| 0 <= p < t.len() ==> (#[trigger] t[p]).iteration == runs_of(t.take(p + 1), t[p].body)
        }),
    decreases alive.len(),
{
    if alive.len() > 0 {
        let (t, q1) = run_trace(q, alive.drop_last());
        lemma_run_trace(q, alive.drop_last());
        if q1.len() > 0 {
            let e = q1[0];
            let ran = ran_task(q1);
            let t2 = t.push(ran);
            let q2 = run_step(q1, alive.last());
            lemma_runs_le(t, e.body);
            assert(e.iteration + 1 <= u32::MAX);
            lemma_runs_push(t, ran, e.body);
            assert forall|i: int| 0 <= i < q2.len() implies (#[trigger] q2[i]).iteration == runs_of(t2, q2[i].body) by {
                if alive.last() && i == q2.len() - 1 {
                    assert(q2[i] == ran);
                } else {
                    assert(q2[i] == q1[i + 1]);
                    lemma_runs_push(t, ran, q1[i + 1].body);
                }
            }
            assert forall|p: int| 0 <= p < t2.len() implies (#[trigger] t2[p]).iteration == runs_of(
                t2.take(p + 1),
                t2[p].body,
            ) by {
                if p < t.len() {
                    assert(t2.take(p + 1) =~= t.take(p + 1));
                    assert(t2[p] == t[p]);
                } else {
                    assert(t2.take(p + 1) =~= t2);
                }
            }
            assert forall|i: int, j: int| 0 <= i < j < q2.len() implies q2[i].body != q2[j].body by {
                if alive.last() && j == q2.len() - 1 {
                    assert(q2[i] == q1[i + 1]);
                } else {
                    assert(q2[i] == q1[i + 1] && q2[j] == q1[j + 1]);
                }
            }
        }
    }
}

/// A whole run: when every task starts unrun and with its own body, each body is run with
/// the arguments 1, 2, 3, ... in turn, whatever the bodies answer: the task handed out at
/// any point carries the number of times its body has run, that time included.
pub proof fn law_run_counts(q: Seq<TaskView>, alive: Seq<bool>)
    requires
        distinct_bodies(q),
        forall|i: int| 0 <= i < q.len() ==> (#[trigger] q[i]).iteration == 0,
        alive.len() < u32::MAX,
    ensures
        ({
            let t = run_trace(q, alive).0;
            forall|p: int| 0 <= p < t.len() ==> (#[trigger] t[p]).iteration == runs_of(t.take(p + 1), t[p].body)
        }),
{
    lemma_run_trace(q, alive);
}

} // verus!
