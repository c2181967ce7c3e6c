//! Background pipeline of a real-estate watchlist monitor.
//!
//! The library holds the verified core: the persistent-store model with its
//! freshness and deduplication index, the producer and consumer decision
//! logic, the yield-selection policy, rent estimation, and the coordinator
//! that drives graceful shutdown. Network calls, the process entry point and
//! the floating-point root solver live outside the library and hand it plain
//! values.

use vstd::prelude::*;

pub mod bot;
pub mod config;
pub mod consumer;
pub mod db;
pub mod models;
pub mod oikotie;
pub mod producer;
pub mod services;
pub mod web;

use crate::models::apartment::Apartment;
use crate::models::watchlist::Watchlist;

verus! {

/// What kind of work a queued task asks a consumer to do.
#[derive(Debug, Clone, Copy, PartialEq, Eq, Structural)]
pub enum TaskType {
    UpdateWatchlist,
    SendMessage,
}

/// One unit of queued work: refresh a watchlist, or send one notification.
/// Tasks are transient; they are produced by the producer, consumed exactly
/// once by a worker, and never persisted.
#[derive(Debug)]
pub struct MessageTask {
    pub task_type: TaskType,
    pub watchlist: Watchlist,
    pub apartment: Option<Apartment>,
}

impl MessageTask {
    /// Task equality up to the identity of the heap-allocated strings.
    pub open spec fn data_eq(self, o: MessageTask) -> bool {
        &&& self.task_type == o.task_type
        &&& self.watchlist.data_eq(o.watchlist)
        &&& match (self.apartment, o.apartment) {
            (Some(a), Some(b)) => a.data_eq(b),
            (None, None) => true,
            _ => false,
        }
    }
}

/// How a request to the listing source is sent.
#[derive(Debug, Clone, Copy, PartialEq, Eq, Structural)]
pub enum RequestType {
    POST,
    GET,
}

/// The listing source's API endpoints.
pub struct URLS;

impl URLS {
    /// The cards (search) endpoint.
    pub fn cards() -> (r: &'static str)
        ensures
            r@ == "https://asunnot.oikotie.fi/api/5.0/cards"@,
    {
        "https://asunnot.oikotie.fi/api/5.0/cards"
    }

    /// The location-lookup endpoint.
    pub fn location() -> (r: &'static str)
        ensures
            r@ == "https://asunnot.oikotie.fi/api/5.0/location"@,
    {
        "https://asunnot.oikotie.fi/api/5.0/location"
    }
}

// ---------------------------------------------------------------------------
// Shutdown coordination
// ---------------------------------------------------------------------------
/// The queue-and-shutdown state the scheduler, producer and workers share.
pub ghost struct CoordinatorModel {
    pub shutdown: bool,
    pub queue: Seq<MessageTask>,
}

/// One operation on the coordinator.
pub ghost enum CoordinatorOp {
    Submit(MessageTask),
    SignalShutdown,
    NextTask,
}

/// What each operation does: a submit is accepted only before the shutdown
/// signal; the signal is latched and never cleared; taking a task drains the
/// queue from the front.
pub open spec fn spec_apply_coordinator(m: CoordinatorModel, op: CoordinatorOp) -> CoordinatorModel {
    match op {
        CoordinatorOp::Submit(t) => if m.shutdown {
            m
        } else {
            CoordinatorModel { shutdown: m.shutdown, queue: m.queue.push(t) }
        },
        CoordinatorOp::SignalShutdown => CoordinatorModel { shutdown: true, queue: m.queue },
        CoordinatorOp::NextTask => if m.queue.len() > 0 {
            CoordinatorModel { shutdown: m.shutdown, queue: m.queue.subrange(1, m.queue.len() as int) }
        } else {
            m
        },
    }
}

/// The single shared task queue with its broadcast shutdown flag.
///
/// Once `signal_shutdown` has run, the submit path accepts nothing more; the
/// workers drain what was enqueued before the signal and the process exits
/// when `should_exit` turns true.
#[derive(Debug)]
pub struct Coordinator {
    pub shutdown: bool,
    pub queue: Vec<MessageTask>,
}

impl Coordinator {
    pub open spec fn model(&self) -> CoordinatorModel {
        CoordinatorModel { shutdown: self.shutdown, queue: self.queue@ }
    }

    /// A fresh coordinator: running, with an empty queue.
    pub fn new() -> (c: Coordinator)
        ensures
            !c.model().shutdown,
            c.model().queue.len() == 0,
    {
        Coordinator { shutdown: false, queue: Vec::new() }
    }

    /// Offers a task to the queue. Accepted exactly when the shutdown signal
    /// has not fired; a refused task is dropped, never queued later.
    pub fn submit(&mut self, task: MessageTask) -> (accepted: bool)
        ensures
            accepted == !old(self).model().shutdown,
            final(self).model() == spec_apply_coordinator(
                old(self).model(),
                CoordinatorOp::Submit(task),
            ),
    {
        if self.shutdown {
            false
        } else {
            self.queue.push(task);
            true
        }
    }

    /// Latches the broadcast shutdown signal.
    pub fn signal_shutdown(&mut self)
        ensures
            final(self).model() == spec_apply_coordinator(
                old(self).model(),
                CoordinatorOp::SignalShutdown,
            ),
    {
        self.shutdown = true;
    }

    /// Hands a worker the oldest queued task, if any.
    pub fn next_task(&mut self) -> (r: Option<MessageTask>)
        ensures
            final(self).model() == spec_apply_coordinator(old(self).model(), CoordinatorOp::NextTask),
            r is Some <==> old(self).model().queue.len() > 0,
            r matches Some(t) ==> t == old(self).model().queue[0],
    {
        if self.queue.len() > 0 {
            Some(self.queue.remove(0))
        } else {
            None
        }
    }

    /// Whether the scheduler may start another producer pass.
    pub fn scheduler_should_run(&self) -> (r: bool)
        ensures
            r == !self.model().shutdown,
    {
        !self.shutdown
    }

    /// Whether the queue has been drained.
    pub fn drained(&self) -> (r: bool)
        ensures
            r == (self.model().queue.len() == 0),
    {
        self.queue.len() == 0
    }

    /// Whether the process may exit: the signal has fired and every task
    /// enqueued before it has been taken.
    pub fn should_exit(&self) -> (r: bool)
        ensures
            r == (self.model().shutdown && self.model().queue.len() == 0),
    {
        self.shutdown && self.queue.len() == 0
    }
}

/// Shutdown is latched: no operation ever clears the signal.
pub proof fn lemma_shutdown_monotone(m: CoordinatorModel, op: CoordinatorOp)
    ensures
        m.shutdown ==> spec_apply_coordinator(m, op).shutdown,
{
}

/// After the shutdown signal, the queue only drains: every operation leaves
/// it as it was or takes its front task off.
pub proof fn lemma_queue_only_drains_after_shutdown(m: CoordinatorModel, op: CoordinatorOp)
    requires
        m.shutdown,
    ensures
        spec_apply_coordinator(m, op).queue == m.queue || (m.queue.len() > 0
            && spec_apply_coordinator(m, op).queue == m.queue.subrange(1, m.queue.len() as int)),
{
}

} // verus!
