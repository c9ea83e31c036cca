//! The scheduler: a FIFO submission queue of runnable tasks and the worker
//! loop that drains it.
//!
//! Tasks are queued by handle: the embedding program keeps each suspended
//! computation under a small integer handle, submits the handle here, and
//! polls the computation whenever the queue hands the handle out. Spawns and
//! wakes share the single queue, so admission is FIFO with no ordering
//! between the two and no priorities.
//!
//! The queue itself is an unbounded multi-producer channel from the
//! `crossbeam` crate, held behind two trusted wrappers; everything decided on
//! top of it — submission, wake-up re-enqueueing, the worker loop — is
//! verified against the queue's contents as a sequence.

use vstd::prelude::*;

use crossbeam::channel::Receiver;
use crossbeam::channel::Sender;

verus! {

/// The two ends of the scheduler's submission channel.
///
/// Both ends stay inside this struct and are reached only through the
/// wrappers below, one at a time, so the channel's contents behave as a
/// single FIFO sequence.
#[verifier::external_body]
pub struct TaskChannel {
    sender: Sender<u64>,
    receiver: Receiver<u64>,
}

/// The task handles queued in the channel, oldest first.
pub uninterp spec fn channel_contents(c: TaskChannel) -> Seq<u64>;

/// Relies on crossbeam::channel::unbounded: a fresh channel holds no messages.
#[verifier::external_body]
fn channel_new() -> (c: TaskChannel)
    ensures
        channel_contents(c) == Seq::<u64>::empty(),
{
    let (sender, receiver) = crossbeam::channel::unbounded();
    TaskChannel { sender, receiver }
}

/// Relies on crossbeam::channel::Sender::send on an unbounded channel: it
/// appends the message at the back of the queue without blocking, and fails
/// only when every receiver is gone — impossible here, where the same struct
/// owns the receiver.
#[verifier::external_body]
fn channel_send(c: &mut TaskChannel, task: u64)
    ensures
        channel_contents(*final(c)) == channel_contents(*old(c)).push(task),
{
    c.sender.send(task).unwrap();
}

/// Relies on crossbeam::channel::Receiver::try_recv: it removes and returns
/// the message at the front of the queue, or reports the channel empty.
#[verifier::external_body]
fn channel_try_recv(c: &mut TaskChannel) -> (r: Option<u64>)
    ensures
        match r {
            Some(t) => {
                &&& channel_contents(*old(c)).len() > 0
                &&& t == channel_contents(*old(c))[0]
                &&& channel_contents(*final(c)) == channel_contents(*old(c)).drop_first()
            },
            None => {
                &&& channel_contents(*old(c)).len() == 0
                &&& channel_contents(*final(c)) == channel_contents(*old(c))
            },
        },
{
    match c.receiver.try_recv() {
        Ok(t) => Some(t),
        Err(_) => None,
    }
}

/// The scheduler: owns the submission queue; tasks are spawned onto it and
/// re-enter it whenever their waker fires.
pub struct Slava {
    queue: TaskChannel,
}

impl Slava {
    /// The queued task handles, oldest first.
    pub closed spec fn tasks(self) -> Seq<u64> {
        channel_contents(self.queue)
    }

    /// A fresh scheduler with an empty queue.
    pub fn slava() -> (s: Slava)
        ensures
            s.tasks() == Seq::<u64>::empty(),
    {
        Slava { queue: channel_new() }
    }

    /// Submit a task: its handle joins the back of the queue.
    pub fn spawn(&mut self, task: u64)
        ensures
            final(self).tasks() == old(self).tasks().push(task),
    {
        channel_send(&mut self.queue, task);
    }

    /// A waker fired: re-enqueue its task. The handle is in the queue
    /// afterwards, whatever else the queue held — in particular a wake that
    /// lands while the task is being polled survives that poll.
    pub fn wake(&mut self, task: u64)
        ensures
            final(self).tasks() == old(self).tasks().push(task),
            final(self).tasks().contains(task),
    {
        channel_send(&mut self.queue, task);
        proof {
            assert(self.tasks()[self.tasks().len() - 1] == task);
        }
    }

    /// Hand out the task to poll next: the oldest queued, if any.
    pub fn next_task(&mut self) -> (r: Option<u64>)
        ensures
            match r {
                Some(t) => {
                    &&& old(self).tasks().len() > 0
                    &&& t == old(self).tasks()[0]
                    &&& final(self).tasks() == old(self).tasks().drop_first()
                },
                None => {
                    &&& old(self).tasks().len() == 0
                    &&& final(self).tasks() == old(self).tasks()
                },
            },
    {
        channel_try_recv(&mut self.queue)
    }

    /// The worker loop, run inline until the queue drains — the whole run
    /// when every task completes on its first poll, since nothing then
    /// re-enters the queue. Every queued task is handed out for a poll
    /// exactly once, in FIFO order, and the loop terminates with the queue
    /// empty.
    pub fn run_singlethreaded(&mut self) -> (polled: Vec<u64>)
        ensures
            polled@ == old(self).tasks(),
            final(self).tasks() == Seq::<u64>::empty(),
    {
        let mut polled: Vec<u64> = Vec::new();
        loop
            invariant
                polled@ + self.tasks() == old(self).tasks(),
            decreases self.tasks().len(),
        {
            match self.next_task() {
                Some(t) => {
                    polled.push(t);
                    proof {
                        assert(polled@ + self.tasks() =~= old(self).tasks());
                    }
                },
                None => {
                    proof {
                        assert(polled@ =~= old(self).tasks());
                        assert(self.tasks() =~= Seq::<u64>::empty());
                    }
                    return polled;
                },
            }
        }
    }
}

/// Law: a wake is never lost. A wake puts its task at the back of the queue
/// (the ensures of [`Slava::wake`]); the worker loop polls exactly the queued
/// tasks (the ensures of [`Slava::run_singlethreaded`]); so a wake that
/// arrives while its task is being polled leads to at least one subsequent
/// poll of that task.
pub proof fn lemma_wake_is_polled(before: Seq<u64>, task: u64, polled: Seq<u64>)
    requires
        polled == before.push(task),
    ensures
        polled.contains(task),
{
    assert(polled[before.len() as int] == task);
}

} // verus!
