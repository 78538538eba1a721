//! The notification dispatcher: a set-once handle owning one bounded FIFO
//! queue of notifications, and the configured SMTP backend that delivers
//! them.

use vstd::prelude::*;
use crate::config::SmtpNotifierConfig;

verus! {

/// How many notifications the queue holds before senders are refused.
pub const QUEUE_CAPACITY: usize = 16;

/// A message for the operators: a title and a body.
#[derive(Clone, Debug, PartialEq, Eq)]
pub struct Notification {
    pub title: String,
    pub body: String,
}

/// Why a dispatcher call failed.
#[derive(Clone, Copy, Debug, PartialEq, Eq, Structural)]
pub enum NotifyError {
    /// The dispatcher was already spawned; the first one stays in charge.
    AlreadySpawned,
    /// No dispatcher has been spawned yet.
    NotifierNotSpawned,
    /// The queue stayed full for the whole wait.
    Timeout,
    /// The queue no longer takes notifications.
    QueueClosed,
}

/// What the consumer finds in the queue.
#[derive(Clone, Debug, PartialEq, Eq)]
pub enum Received {
    /// The oldest queued notification, now taken out.
    Notification(Notification),
    /// Nothing is queued yet; more may come.
    Empty,
    /// Nothing is queued and nothing more will come.
    Closed,
}

/// The abstract state of a dispatcher.
pub struct DispatcherView {
    pub spawned: bool,
    pub closed: bool,
    /// Queued notifications, oldest first.
    pub queue: Seq<Notification>,
    pub smtp: Option<SmtpNotifierConfig>,
}

pub open spec fn unspawned() -> DispatcherView {
    DispatcherView { spawned: false, closed: false, queue: Seq::empty(), smtp: None }
}

/// Spawning succeeds once: it sets up an empty, open queue and the backend.
pub open spec fn spawn_outcome(d: DispatcherView, smtp: Option<SmtpNotifierConfig>) -> (
    DispatcherView,
    Result<(), NotifyError>,
) {
    if d.spawned {
        (d, Err(NotifyError::AlreadySpawned))
    } else {
        (DispatcherView { spawned: true, closed: false, queue: Seq::empty(), smtp }, Ok(()))
    }
}

/// Enqueueing appends to an open queue that has room; it changes nothing
/// otherwise.
pub open spec fn send_outcome(d: DispatcherView, n: Notification) -> (DispatcherView, Result<(), NotifyError>) {
    if !d.spawned {
        (d, Err(NotifyError::NotifierNotSpawned))
    } else if d.closed {
        (d, Err(NotifyError::QueueClosed))
    } else if d.queue.len() >= QUEUE_CAPACITY {
        (d, Err(NotifyError::Timeout))
    } else {
        (DispatcherView { queue: d.queue.push(n), ..d }, Ok(()))
    }
}

/// Receiving takes the oldest notification out.
pub open spec fn receive_outcome(d: DispatcherView) -> (DispatcherView, Received) {
    if d.queue.len() > 0 {
        (DispatcherView { queue: d.queue.drop_first(), ..d }, Received::Notification(d.queue[0]))
    } else if d.spawned && !d.closed {
        (d, Received::Empty)
    } else {
        (d, Received::Closed)
    }
}

/// The state and results after enqueueing each of `ns` in turn.
pub open spec fn sends(d: DispatcherView, ns: Seq<Notification>) -> (DispatcherView, Seq<Result<(), NotifyError>>)
    decreases ns.len(),
{
    if ns.len() == 0 {
        (d, Seq::empty())
    } else {
        let (before, results) = sends(d, ns.drop_last());
        let (after, r) = send_outcome(before, ns.last());
        (after, results.push(r))
    }
}

/// Enqueueing before the dispatcher is spawned fails with
/// `NotifierNotSpawned` on every attempt, and changes nothing.
pub proof fn lemma_sends_before_spawn_fail(d: DispatcherView, ns: Seq<Notification>)
    requires
        !d.spawned,
    ensures
        sends(d, ns).0 == d,
        sends(d, ns).1.len() == ns.len(),
        forall|i: int| 0 <= i < ns.len() ==> #[trigger] sends(d, ns).1[i] == Err::<(), NotifyError>(NotifyError::NotifierNotSpawned),
    decreases ns.len(),
{
    if ns.len() > 0 {
        lemma_sends_before_spawn_fail(d, ns.drop_last());
    }
}

/// A second spawn fails with `AlreadySpawned` and leaves the first
/// dispatcher as it was: same backend, same queue, still taking
/// notifications.
pub proof fn lemma_second_spawn_keeps_first(
    d: DispatcherView,
    first: Option<SmtpNotifierConfig>,
    second: Option<SmtpNotifierConfig>,
    n: Notification,
)
    requires
        !d.spawned,
    ensures
        ({
            let running = spawn_outcome(d, first).0;
            &&& spawn_outcome(running, second) == (running, Err::<(), NotifyError>(NotifyError::AlreadySpawned))
            &&& running.smtp == first
            &&& send_outcome(spawn_outcome(running, second).0, n).1 == Ok::<(), NotifyError>(())
        }),
{
}

/// A full queue refuses a notification with `Timeout`; once the consumer
/// has taken one out, the same notification is accepted.
pub proof fn lemma_full_queue_refuses_until_drained(d: DispatcherView, n: Notification)
    requires
        d.spawned,
        !d.closed,
        d.queue.len() == QUEUE_CAPACITY,
    ensures
        send_outcome(d, n) == (d, Err::<(), NotifyError>(NotifyError::Timeout)),
        send_outcome(receive_outcome(d).0, n).1 == Ok::<(), NotifyError>(()),
{
}

/// The queue never holds more than its capacity: spawning starts it empty,
/// enqueueing and receiving keep it within bounds.
pub proof fn lemma_queue_stays_bounded(d: DispatcherView, n: Notification, smtp: Option<SmtpNotifierConfig>)
    requires
        d.queue.len() <= QUEUE_CAPACITY,
    ensures
        spawn_outcome(d, smtp).0.queue.len() <= QUEUE_CAPACITY,
        send_outcome(d, n).0.queue.len() <= QUEUE_CAPACITY,
        receive_outcome(d).0.queue.len() <= QUEUE_CAPACITY,
{
}

/// The dispatcher handle: created unspawned, spawned once, then shared by
/// producers (enqueue) and one consumer (receive).
pub struct Dispatcher {
    spawned: bool,
    closed: bool,
    queue: Vec<Notification>,
    smtp: Option<SmtpNotifierConfig>,
}

impl View for Dispatcher {
    type V = DispatcherView;

    closed spec fn view(&self) -> DispatcherView {
        DispatcherView { spawned: self.spawned, closed: self.closed, queue: self.queue@, smtp: self.smtp }
    }
}

impl Dispatcher {
    /// A dispatcher that has not been spawned.
    pub fn new() -> (r: Dispatcher)
        ensures
            r@ == unspawned(),
    {
        Dispatcher { spawned: false, closed: false, queue: Vec::new(), smtp: None }
    }

    /// Starts the dispatcher with its SMTP backend, if one is configured.
    /// Fails with `AlreadySpawned`, changing nothing, if it was started before.
    pub fn spawn_notifier(&mut self, smtp: Option<SmtpNotifierConfig>) -> (r: Result<(), NotifyError>)
        ensures
            (final(self)@, r) == spawn_outcome(old(self)@, smtp),
    {
        if self.spawned {
            return Err(NotifyError::AlreadySpawned);
        }
        self.spawned = true;
        self.closed = false;
        self.queue = Vec::new();
        self.smtp = smtp;
        Ok(())
    }

    /// Enqueues a notification. The caller holds the handle exclusively, so
    /// a full queue cannot drain meanwhile: it fails with `Timeout`.
    pub fn send_notification(&mut self, notification: Notification) -> (r: Result<(), NotifyError>)
        ensures
            (final(self)@, r) == send_outcome(old(self)@, notification),
    {
        if !self.spawned {
            return Err(NotifyError::NotifierNotSpawned);
        }
        if self.closed {
            return Err(NotifyError::QueueClosed);
        }
        if self.queue.len() >= QUEUE_CAPACITY {
            return Err(NotifyError::Timeout);
        }
        self.queue.push(notification);
        Ok(())
    }

    /// Takes the oldest queued notification out, in the order they came.
    pub fn next_notification(&mut self) -> (r: Received)
        ensures
            (final(self)@, r) == receive_outcome(old(self)@),
    {
        if self.queue.len() > 0 {
            let n = self.queue.remove(0);
            assert(self@.queue =~= old(self)@.queue.drop_first());
            return Received::Notification(n);
        }
        if self.spawned && !self.closed {
            Received::Empty
        } else {
            Received::Closed
        }
    }

    /// Stops taking notifications; those queued can still be received.
    pub fn close(&mut self)
        ensures
            final(self)@ == (DispatcherView { closed: true, ..old(self)@ }),
    {
        self.closed = true;
    }

    pub fn is_spawned(&self) -> (r: bool)
        ensures
            r == self@.spawned,
    {
        self.spawned
    }

    /// How many notifications are queued.
    pub fn len(&self) -> (r: usize)
        ensures
            r == self@.queue.len(),
    {
        self.queue.len()
    }

    /// The SMTP backend that delivers the notifications, if configured.
    pub fn smtp_config(&self) -> (r: &Option<SmtpNotifierConfig>)
        ensures
            *r == self@.smtp,
    {
        &self.smtp
    }
}

} // verus!
