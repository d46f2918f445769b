//! The ends of channels, tasks and shared numbers, each with an account of what was done through it.
//!
//! An account grows by the functions in this module and in no other way. Each of them makes one call
//! to the outside, says so, and adds to the account what was handed over and what came back, whatever
//! that was: the other side decides it.

use std::sync::atomic::{AtomicBool, AtomicU64, AtomicUsize, Ordering};
use std::sync::Arc;

use vstd::prelude::*;

use crate::channels::{
    abort_task, async_try_recv, async_try_send, crossbeam_try_recv, crossbeam_try_send,
    task_is_finished, tokio_signal, tokio_try_recv, tokio_try_send, PutOutcome,
};

verus! {

/// The messages in an account, without what became of them.
pub open spec fn messages<T>(handed: Seq<(T, PutOutcome)>) -> Seq<T> {
    handed.map_values(|entry: (T, PutOutcome)| entry.0)
}

/// One more message in an account is one more message.
pub proof fn lemma_messages_push<T>(handed: Seq<(T, PutOutcome)>, message: T, outcome: PutOutcome)
    ensures
        messages(handed.push((message, outcome))) == messages(handed).push(message),
{
    assert(messages(handed.push((message, outcome))) =~= messages(handed).push(message));
}

/// The sending end of a crossbeam channel.
#[verifier::reject_recursive_types(T)]
pub struct ThreadOutbox<T> {
    sender: crossbeam::channel::Sender<T>,
    handed: Ghost<Seq<(T, PutOutcome)>>,
}

impl<T> ThreadOutbox<T> {
    /// The messages that were handed over, each with what became of it.
    pub closed spec fn handed(&self) -> Seq<(T, PutOutcome)> {
        self.handed@
    }

    /// The end itself.
    pub closed spec fn end(&self) -> crossbeam::channel::Sender<T> {
        self.sender
    }

    /// Starts an account.
    pub fn new(sender: crossbeam::channel::Sender<T>) -> (r: Self)
        ensures
            r.end() == sender,
            r.handed() == Seq::<(T, PutOutcome)>::empty(),
    {
        ThreadOutbox { sender, handed: Ghost(Seq::empty()) }
    }

    /// Hands over a message, and notes what became of it.
    pub(crate) fn put(&mut self, message: T) -> (r: PutOutcome)
        ensures
            call_ensures(crossbeam_try_send::<T>, (&old(self).end(), message), r),
            final(self).end() == old(self).end(),
            final(self).handed() == old(self).handed().push((message, r)),
    {
        let ghost noted = message;
        let outcome = crossbeam_try_send(&self.sender, message);
        self.handed = Ghost(self.handed@.push((noted, outcome)));
        outcome
    }
}

/// The receiving end of a crossbeam channel.
#[verifier::reject_recursive_types(T)]
pub struct ThreadInbox<T> {
    receiver: crossbeam::channel::Receiver<T>,
    given: Ghost<Seq<Option<T>>>,
}

impl<T> ThreadInbox<T> {
    /// What the channel gave, each time it was asked.
    pub closed spec fn given(&self) -> Seq<Option<T>> {
        self.given@
    }

    /// The end itself.
    pub closed spec fn end(&self) -> crossbeam::channel::Receiver<T> {
        self.receiver
    }

    /// Starts an account.
    pub fn new(receiver: crossbeam::channel::Receiver<T>) -> (r: Self)
        ensures
            r.end() == receiver,
            r.given() == Seq::<Option<T>>::empty(),
    {
        ThreadInbox { receiver, given: Ghost(Seq::empty()) }
    }

    /// Asks for the oldest message, and notes what the channel gave.
    pub(crate) fn next(&mut self) -> (r: Option<T>)
        ensures
            call_ensures(crossbeam_try_recv::<T>, (&old(self).end(),), r),
            final(self).end() == old(self).end(),
            final(self).given() == old(self).given().push(r),
    {
        let message = crossbeam_try_recv(&self.receiver);
        self.given = Ghost(self.given@.push(message));
        message
    }
}

/// The sending end of a tokio channel with a limit.
#[verifier::reject_recursive_types(T)]
pub struct TaskOutbox<T> {
    sender: tokio::sync::mpsc::Sender<T>,
    handed: Ghost<Seq<(T, PutOutcome)>>,
}

impl<T> TaskOutbox<T> {
    /// The messages that were handed over, each with what became of it.
    pub closed spec fn handed(&self) -> Seq<(T, PutOutcome)> {
        self.handed@
    }

    /// The end itself.
    pub closed spec fn end(&self) -> tokio::sync::mpsc::Sender<T> {
        self.sender
    }

    /// Starts an account.
    pub fn new(sender: tokio::sync::mpsc::Sender<T>) -> (r: Self)
        ensures
            r.end() == sender,
            r.handed() == Seq::<(T, PutOutcome)>::empty(),
    {
        TaskOutbox { sender, handed: Ghost(Seq::empty()) }
    }

    /// Hands over a message, and notes what became of it.
    pub(crate) fn put(&mut self, message: T) -> (r: PutOutcome)
        ensures
            call_ensures(tokio_try_send::<T>, (&old(self).end(), message), r),
            final(self).end() == old(self).end(),
            final(self).handed() == old(self).handed().push((message, r)),
    {
        let ghost noted = message;
        let outcome = tokio_try_send(&self.sender, message);
        self.handed = Ghost(self.handed@.push((noted, outcome)));
        outcome
    }
}

/// The receiving end of a tokio channel with a limit.
#[verifier::reject_recursive_types(T)]
pub struct TaskInbox<T> {
    receiver: tokio::sync::mpsc::Receiver<T>,
    given: Ghost<Seq<Option<T>>>,
}

impl<T> TaskInbox<T> {
    /// What the channel gave, each time it was asked.
    pub closed spec fn given(&self) -> Seq<Option<T>> {
        self.given@
    }

    /// The end itself.
    pub closed spec fn end(&self) -> tokio::sync::mpsc::Receiver<T> {
        self.receiver
    }

    /// Starts an account.
    pub fn new(receiver: tokio::sync::mpsc::Receiver<T>) -> (r: Self)
        ensures
            r.end() == receiver,
            r.given() == Seq::<Option<T>>::empty(),
    {
        TaskInbox { receiver, given: Ghost(Seq::empty()) }
    }

    /// Asks for the oldest message, and notes what the channel gave.
    pub(crate) fn next(&mut self) -> (r: Option<T>)
        ensures
            exists|end: &mut tokio::sync::mpsc::Receiver<T>|
                *end == old(self).end() && *final(end) == final(self).end()
                    && #[trigger] call_ensures(tokio_try_recv::<T>, (end,), r),
            final(self).end() == old(self).end(),
            final(self).given() == old(self).given().push(r),
    {
        let message = tokio_try_recv(&mut self.receiver);
        self.given = Ghost(self.given@.push(message));
        message
    }
}

/// The sending end of an async channel.
#[verifier::reject_recursive_types(T)]
pub struct AsyncOutbox<T> {
    sender: async_channel::Sender<T>,
    handed: Ghost<Seq<(T, PutOutcome)>>,
}

impl<T> AsyncOutbox<T> {
    /// The messages that were handed over, each with what became of it.
    pub closed spec fn handed(&self) -> Seq<(T, PutOutcome)> {
        self.handed@
    }

    /// The end itself.
    pub closed spec fn end(&self) -> async_channel::Sender<T> {
        self.sender
    }

    /// Starts an account.
    pub fn new(sender: async_channel::Sender<T>) -> (r: Self)
        ensures
            r.end() == sender,
            r.handed() == Seq::<(T, PutOutcome)>::empty(),
    {
        AsyncOutbox { sender, handed: Ghost(Seq::empty()) }
    }

    /// Hands over a message, and notes what became of it.
    pub(crate) fn put(&mut self, message: T) -> (r: PutOutcome)
        ensures
            call_ensures(async_try_send::<T>, (&old(self).end(), message), r),
            final(self).end() == old(self).end(),
            final(self).handed() == old(self).handed().push((message, r)),
    {
        let ghost noted = message;
        let outcome = async_try_send(&self.sender, message);
        self.handed = Ghost(self.handed@.push((noted, outcome)));
        outcome
    }
}

/// The receiving end of an async channel.
#[verifier::reject_recursive_types(T)]
pub struct AsyncInbox<T> {
    receiver: async_channel::Receiver<T>,
    given: Ghost<Seq<Option<T>>>,
}

impl<T> AsyncInbox<T> {
    /// What the channel gave, each time it was asked.
    pub closed spec fn given(&self) -> Seq<Option<T>> {
        self.given@
    }

    /// The end itself.
    pub closed spec fn end(&self) -> async_channel::Receiver<T> {
        self.receiver
    }

    /// Starts an account.
    pub fn new(receiver: async_channel::Receiver<T>) -> (r: Self)
        ensures
            r.end() == receiver,
            r.given() == Seq::<Option<T>>::empty(),
    {
        AsyncInbox { receiver, given: Ghost(Seq::empty()) }
    }

    /// Asks for the oldest message, and notes what the channel gave.
    pub(crate) fn next(&mut self) -> (r: Option<T>)
        ensures
            call_ensures(async_try_recv::<T>, (&old(self).end(),), r),
            final(self).end() == old(self).end(),
            final(self).given() == old(self).given().push(r),
    {
        let message = async_try_recv(&self.receiver);
        self.given = Ghost(self.given@.push(message));
        message
    }
}

/// The sending end of a tokio channel without a limit, for signals.
pub struct SignalOutbox {
    sender: tokio::sync::mpsc::UnboundedSender<()>,
    handed: Ghost<Seq<PutOutcome>>,
}

impl SignalOutbox {
    /// What became of each signal that was handed over.
    pub closed spec fn handed(&self) -> Seq<PutOutcome> {
        self.handed@
    }

    /// The end itself.
    pub closed spec fn end(&self) -> tokio::sync::mpsc::UnboundedSender<()> {
        self.sender
    }

    /// Starts an account.
    pub fn new(sender: tokio::sync::mpsc::UnboundedSender<()>) -> (r: Self)
        ensures
            r.end() == sender,
            r.handed() == Seq::<PutOutcome>::empty(),
    {
        SignalOutbox { sender, handed: Ghost(Seq::empty()) }
    }

    /// Hands over a signal, and notes what became of it.
    pub(crate) fn put(&mut self) -> (r: PutOutcome)
        ensures
            call_ensures(tokio_signal, (&old(self).end(),), r),
            final(self).end() == old(self).end(),
            final(self).handed() == old(self).handed().push(r),
    {
        let outcome = tokio_signal(&self.sender);
        self.handed = Ghost(self.handed@.push(outcome));
        outcome
    }
}

/// A running tokio task that can be asked whether it is over.
pub struct RunningTask {
    task: tokio::task::JoinHandle<()>,
    checks: Ghost<Seq<bool>>,
}

impl RunningTask {
    /// Whether the task was over, each time it was asked.
    pub closed spec fn checks(&self) -> Seq<bool> {
        self.checks@
    }

    /// The task itself.
    pub closed spec fn task(&self) -> tokio::task::JoinHandle<()> {
        self.task
    }

    /// Starts an account.
    pub fn new(task: tokio::task::JoinHandle<()>) -> (r: Self)
        ensures
            r.task() == task,
            r.checks() == Seq::<bool>::empty(),
    {
        RunningTask { task, checks: Ghost(Seq::empty()) }
    }

    /// Asks whether the task is over, and notes the answer.
    pub(crate) fn is_finished(&mut self) -> (r: bool)
        ensures
            call_ensures(task_is_finished, (&old(self).task(),), r),
            final(self).task() == old(self).task(),
            final(self).checks() == old(self).checks().push(r),
    {
        let finished = task_is_finished(&self.task);
        self.checks = Ghost(self.checks@.push(finished));
        finished
    }
}

/// What ends a tokio task.
pub struct TaskStopper {
    task: tokio::task::AbortHandle,
    stops: Ghost<nat>,
}

impl TaskStopper {
    /// How often the task was told to stop.
    pub closed spec fn stops(&self) -> nat {
        self.stops@
    }

    /// The task itself.
    pub closed spec fn task(&self) -> tokio::task::AbortHandle {
        self.task
    }

    /// Starts an account.
    pub fn new(task: tokio::task::AbortHandle) -> (r: Self)
        ensures
            r.task() == task,
            r.stops() == 0,
    {
        TaskStopper { task, stops: Ghost(0) }
    }

    /// Tells the task to stop, and counts it.
    pub(crate) fn stop(&mut self)
        ensures
            call_ensures(abort_task, (&old(self).task(),), ()),
            final(self).task() == old(self).task(),
            final(self).stops() == old(self).stops() + 1,
    {
        abort_task(&self.task);
        self.stops = Ghost(self.stops@ + 1);
    }
}

/// Where the indices of clients come from. There is one for each counter.
pub struct IndexSource {
    counter: Arc<AtomicU64>,
    next: Ghost<u64>,
}

/// Looks at a counter of indices.
pub struct IndexGauge {
    counter: Arc<AtomicU64>,
    reads: Ghost<Seq<u64>>,
}

impl IndexSource {
    /// The next index.
    pub closed spec fn next_index(&self) -> u64 {
        self.next@
    }

    /// The counter itself.
    pub closed spec fn counter(&self) -> Arc<AtomicU64> {
        self.counter
    }

    /// Makes a counter of its own that gives out indices from this one on.
    pub fn new(first: u64) -> (r: Self)
        ensures
            call_ensures(AtomicU64::new, (first,), *r.counter()),
            r.next_index() == first,
    {
        IndexSource { counter: Arc::new(AtomicU64::new(first)), next: Ghost(first) }
    }

    /// Looks at the counter from elsewhere.
    pub fn gauge(&self) -> (r: IndexGauge)
        ensures
            r.counter() == self.counter(),
            r.reads() == Seq::<u64>::empty(),
    {
        IndexGauge { counter: self.counter.clone(), reads: Ghost(Seq::empty()) }
    }

    /// Calls `std::sync::atomic::AtomicU64::fetch_add`, which adds to the value, around after the
    /// largest one, and returns the value before. Nothing else changes the value of this counter: it
    /// starts at the first index, and whoever else has it only looks at it.
    #[verifier::external_body]
    pub(crate) fn draw(&mut self) -> (r: u64)
        ensures
            r == old(self).next_index(),
            final(self).next_index() == old(self).next_index().wrapping_add(1),
            final(self).counter() == old(self).counter(),
    {
        self.counter.fetch_add(1, Ordering::Relaxed)
    }
}

impl IndexGauge {
    /// The counter itself.
    pub closed spec fn counter(&self) -> Arc<AtomicU64> {
        self.counter
    }

    /// What the counter showed, each time it was looked at.
    pub closed spec fn reads(&self) -> Seq<u64> {
        self.reads@
    }

    /// Looks at the counter, and notes what it shows. That depends on how many indices were drawn.
    pub(crate) fn read(&mut self) -> (r: u64)
        ensures
            call_ensures(AtomicU64::load, (&*old(self).counter(), Ordering::Relaxed), r),
            final(self).counter() == old(self).counter(),
            final(self).reads() == old(self).reads().push(r),
    {
        let value: u64 = self.counter.load(Ordering::Relaxed);
        self.reads = Ghost(self.reads@.push(value));
        value
    }
}

/// Shows a number to other tasks.
pub struct CountBoard {
    number: Arc<AtomicUsize>,
    shown: Ghost<usize>,
}

impl CountBoard {
    /// The number that was last put up.
    pub closed spec fn shown(&self) -> usize {
        self.shown@
    }

    /// The shared number itself.
    pub closed spec fn number(&self) -> Arc<AtomicUsize> {
        self.number
    }

    /// Makes a board that shows zero.
    pub fn new() -> (r: Self)
        ensures
            call_ensures(AtomicUsize::new, (0usize,), *r.number()),
            r.shown() == 0,
    {
        CountBoard { number: Arc::new(AtomicUsize::new(0)), shown: Ghost(0) }
    }

    /// The shared number, for other tasks to look at.
    pub fn shared(&self) -> (r: Arc<AtomicUsize>)
        ensures
            r == self.number(),
    {
        self.number.clone()
    }

    /// Puts up a number, and notes it.
    pub(crate) fn show(&mut self, number: usize)
        ensures
            call_ensures(
                AtomicUsize::store,
                (&*old(self).number(), number, Ordering::Release),
                (),
            ),
            final(self).shown() == number,
            final(self).number() == old(self).number(),
    {
        self.number.store(number, Ordering::Release);
        self.shown = Ghost(number);
    }
}

/// One thing done with a shared flag.
pub enum FlagUse {
    /// It was looked at, and was this.
    Read(bool),
    /// It was set to this.
    Written(bool),
}

/// A flag that is shared with other tasks.
pub struct SharedFlag {
    flag: Arc<AtomicBool>,
    uses: Ghost<Seq<FlagUse>>,
}

impl SharedFlag {
    /// What was done with the flag from here.
    pub closed spec fn uses(&self) -> Seq<FlagUse> {
        self.uses@
    }

    /// The flag itself.
    pub closed spec fn flag(&self) -> Arc<AtomicBool> {
        self.flag
    }

    /// Starts an account.
    pub fn new(flag: Arc<AtomicBool>) -> (r: Self)
        ensures
            r.flag() == flag,
            r.uses() == Seq::<FlagUse>::empty(),
    {
        SharedFlag { flag, uses: Ghost(Seq::empty()) }
    }

    /// Looks at the flag without a note. What it is depends on other tasks, which set it too.
    pub(crate) fn peek(&self) -> (r: bool)
        ensures
            call_ensures(AtomicBool::load, (&*self.flag(), Ordering::Relaxed), r),
    {
        self.flag.load(Ordering::Relaxed)
    }

    /// Looks at the flag, and notes what it is. That depends on other tasks, which set it too.
    pub(crate) fn read(&mut self) -> (r: bool)
        ensures
            final(self).flag() == old(self).flag(),
            final(self).uses() == old(self).uses().push(FlagUse::Read(r)),
            call_ensures(AtomicBool::load, (&*old(self).flag(), Ordering::Relaxed), r),
    {
        let value = self.flag.load(Ordering::Relaxed);
        self.uses = Ghost(self.uses@.push(FlagUse::Read(value)));
        value
    }

    /// Sets the flag, and notes it.
    pub(crate) fn write(&mut self, value: bool)
        ensures
            final(self).flag() == old(self).flag(),
            final(self).uses() == old(self).uses().push(FlagUse::Written(value)),
            call_ensures(AtomicBool::store, (&*old(self).flag(), value, Ordering::Relaxed), ()),
    {
        self.flag.store(value, Ordering::Relaxed);
        self.uses = Ghost(self.uses@.push(FlagUse::Written(value)));
    }
}

} // verus!
