use vstd::prelude::*;

use crate::error::{ErrorModel, HyperError};
use crate::registry::{has_id, ids_unique, position_of, without_id, PendingEntry, Registry};

verus! {

/// The status codes of one kind of handle that the dispatcher must tell apart,
/// and the two codes it gives to failures of its own making.
#[derive(Clone, Copy)]
pub struct ReturnCodes {
    /// The operation succeeded.
    pub success: u32,
    /// A poll timed out before any request completed.
    pub timeout: u32,
    /// A poll found nothing in flight.
    pub none_pending: u32,
    /// Given to requests that are still pending when the dispatcher shuts down.
    pub interrupted: u32,
    /// Given to a request whose id was already in flight.
    pub internal: u32,
}

/// What a dispatcher does with the requests still pending when its intake closes.
#[derive(Clone, Copy)]
pub enum DrainPolicy {
    /// Resolve each of them at once with the shutdown error.
    FailPending,
    /// Keep polling until each of them has completed.
    AwaitPending,
}

/// An error that no single caller can be told of: it goes to the dispatcher's
/// side channel.
pub enum DispatchError {
    /// The poll itself failed.
    Transport(HyperError),
    /// A poll reported an id that has no pending entry.
    Uncorrelated { id: i64, status: u32 },
    /// A submission arrived with an id that was already in flight.
    DuplicateId { id: i64 },
}

/// What a side-channel report holds, as plain values.
pub enum ReportModel {
    Transport(ErrorModel),
    Uncorrelated { id: i64, status: u32 },
    DuplicateId { id: i64 },
}

impl DispatchError {
    pub open spec fn view(&self) -> ReportModel {
        match self {
            DispatchError::Transport(e) => ReportModel::Transport(e@),
            DispatchError::Uncorrelated { id, status } => ReportModel::Uncorrelated { id: *id, status: *status },
            DispatchError::DuplicateId { id } => ReportModel::DuplicateId { id: *id },
        }
    }
}

/// A continuation to fire: the entry that was taken out of the registry, and
/// what its caller is to observe.
pub struct Delivery<K> {
    pub entry: PendingEntry<K>,
    pub outcome: Result<(), HyperError>,
}

impl<K> Delivery<K> {
    /// The entry, and `None` for success or the error for failure.
    pub open spec fn view(&self) -> (PendingEntry<K>, Option<ErrorModel>) {
        match self.outcome {
            Ok(_) => (self.entry, None),
            Err(e) => (self.entry, Some(e@)),
        }
    }
}

/// What the loop around a dispatcher must do after an event: fire the
/// deliveries in order, send the report to the side channel, then poll the
/// handle once if `poll` is set, or destroy it and stop if `destroy` is set.
pub struct Step<K> {
    pub deliveries: Vec<Delivery<K>>,
    pub report: Option<DispatchError>,
    pub poll: bool,
    pub destroy: bool,
}

/// What a step asks of the loop, as plain values: each delivery is the
/// entry with `None` for success or the error for failure.
pub struct StepModel<K> {
    pub delivered: Seq<(PendingEntry<K>, Option<ErrorModel>)>,
    pub report: Option<ReportModel>,
    pub poll: bool,
    pub destroy: bool,
}

impl<K> Step<K> {
    pub open spec fn view(&self) -> StepModel<K> {
        StepModel {
            delivered: self.deliveries@.map_values(|d: Delivery<K>| d@),
            report: match self.report {
                Some(r) => Some(r@),
                None => None,
            },
            poll: self.poll,
            destroy: self.destroy,
        }
    }
}

/// The state of a dispatcher: its codes and policy, the entries in flight,
/// whether its intake has closed, and whether it has destroyed its handle.
pub struct DispatcherModel<K> {
    pub codes: ReturnCodes,
    pub policy: DrainPolicy,
    pub pending: Seq<PendingEntry<K>>,
    pub closed: bool,
    pub stopped: bool,
}

/// An event that wakes the dispatcher.
pub enum EventModel<K> {
    /// A new entry came through the intake.
    Submitted(PendingEntry<K>),
    /// The liveness ticker fired.
    Ticked,
    /// A poll returned `ret` with `status`; `message` and `location` are what
    /// the handle said of its last error right after that poll.
    Polled { ret: i64, status: u32, message: Seq<char>, location: Seq<char> },
    /// The intake closed: no more submissions will come.
    Closed,
}

/// Ids stay unique, and a dispatcher stops only once closed and empty.
pub open spec fn model_wf<K>(s: DispatcherModel<K>) -> bool {
    &&& ids_unique(s.pending)
    &&& s.stopped ==> s.closed && s.pending.len() == 0
}

/// Events that can reach a dispatcher in state `s`: none once it has stopped,
/// and neither a submission nor a second closing once its intake has closed.
pub open spec fn admits<K>(s: DispatcherModel<K>, ev: EventModel<K>) -> bool {
    &&& !s.stopped
    &&& (ev is Submitted || ev is Closed) ==> !s.closed
}

pub open spec fn shutdown_message() -> Seq<char> {
    "the dispatcher shut down before the request completed"@
}

pub open spec fn duplicate_message() -> Seq<char> {
    "a request with this id is already in flight"@
}

pub open spec fn dispatcher_location() -> Seq<char> {
    "dispatcher"@
}

pub open spec fn shutdown_error(codes: ReturnCodes) -> ErrorModel {
    ErrorModel { status: codes.interrupted, message: shutdown_message(), location: dispatcher_location() }
}

pub open spec fn duplicate_error(codes: ReturnCodes) -> ErrorModel {
    ErrorModel { status: codes.internal, message: duplicate_message(), location: dispatcher_location() }
}

/// What a completed request resolves to, `None` being success: a successful
/// poll defers to the status in the request's slot, a failed one decides.
pub open spec fn completion_outcome(
    codes: ReturnCodes,
    slot: u32,
    status: u32,
    message: Seq<char>,
    location: Seq<char>,
) -> Option<ErrorModel> {
    if status == codes.success {
        if slot == codes.success {
            None
        } else {
            Some(ErrorModel { status: slot, message, location })
        }
    } else {
        Some(ErrorModel { status, message, location })
    }
}

/// A poll that returned no id: benign when it timed out or found nothing in
/// flight, a transport error otherwise.
pub open spec fn idle_poll_report(codes: ReturnCodes, status: u32, message: Seq<char>, location: Seq<char>) -> Option<ReportModel> {
    if status == codes.timeout || status == codes.none_pending {
        None
    } else {
        Some(ReportModel::Transport(ErrorModel { status, message, location }))
    }
}

/// The step after a poll: a closed dispatcher whose registry has emptied
/// destroys its handle and stops.
pub open spec fn settle<K>(
    s: DispatcherModel<K>,
    delivered: Seq<(PendingEntry<K>, Option<ErrorModel>)>,
    report: Option<ReportModel>,
) -> (DispatcherModel<K>, StepModel<K>) {
    if s.closed && s.pending.len() == 0 {
        (DispatcherModel { stopped: true, ..s }, StepModel { delivered, report, poll: false, destroy: true })
    } else {
        (s, StepModel { delivered, report, poll: false, destroy: false })
    }
}

pub open spec fn shutdown_deliveries<K>(codes: ReturnCodes, pending: Seq<PendingEntry<K>>) -> Seq<(PendingEntry<K>, Option<ErrorModel>)> {
    pending.map_values(|e: PendingEntry<K>| (e, Some(shutdown_error(codes))))
}

/// The next state of a dispatcher in state `s` on event `ev`, and what the
/// loop around it must do.
pub open spec fn step_model<K>(s: DispatcherModel<K>, ev: EventModel<K>) -> (DispatcherModel<K>, StepModel<K>) {
    match ev {
        EventModel::Submitted(e) => {
            if has_id(s.pending, e.id) {
                (s, StepModel {
                    delivered: seq![(e, Some(duplicate_error(s.codes)))],
                    report: Some(ReportModel::DuplicateId { id: e.id }),
                    poll: s.pending.len() > 0,
                    destroy: false,
                })
            } else {
                (DispatcherModel { pending: s.pending.push(e), ..s },
                 StepModel { delivered: seq![], report: None, poll: true, destroy: false })
            }
        },
        EventModel::Ticked => {
            (s, StepModel { delivered: seq![], report: None, poll: s.pending.len() > 0, destroy: false })
        },
        EventModel::Polled { ret, status, message, location } => {
            if ret < 0 {
                settle(s, seq![], idle_poll_report(s.codes, status, message, location))
            } else if has_id(s.pending, ret) {
                let e = s.pending[position_of(s.pending, ret)];
                settle(
                    DispatcherModel { pending: without_id(s.pending, ret), ..s },
                    seq![(e, completion_outcome(s.codes, e.status, status, message, location))],
                    None,
                )
            } else {
                settle(s, seq![], Some(ReportModel::Uncorrelated { id: ret, status }))
            }
        },
        EventModel::Closed => {
            match s.policy {
                DrainPolicy::FailPending => {
                    (DispatcherModel { pending: seq![], closed: true, stopped: true, ..s },
                     StepModel { delivered: shutdown_deliveries(s.codes, s.pending), report: None, poll: false, destroy: true })
                },
                DrainPolicy::AwaitPending => {
                    if s.pending.len() == 0 {
                        (DispatcherModel { closed: true, stopped: true, ..s },
                         StepModel { delivered: seq![], report: None, poll: false, destroy: true })
                    } else {
                        (DispatcherModel { closed: true, ..s },
                         StepModel { delivered: seq![], report: None, poll: true, destroy: false })
                    }
                },
            }
        },
    }
}

/// The two states of a dispatcher that is running, and the two after its
/// intake has closed.
#[derive(PartialEq, Eq, Structural, Clone, Copy, Debug)]
pub enum DispatcherState {
    /// Nothing in flight: the handle is not polled.
    Idle,
    /// Requests in flight: each wake-up polls the handle once.
    Active,
    /// The intake has closed and requests are still in flight.
    Draining,
    /// The handle has been destroyed.
    Stopped,
}

pub open spec fn state_of<K>(s: DispatcherModel<K>) -> DispatcherState {
    if s.stopped {
        DispatcherState::Stopped
    } else if s.closed {
        DispatcherState::Draining
    } else if s.pending.len() == 0 {
        DispatcherState::Idle
    } else {
        DispatcherState::Active
    }
}

/// The decisions of one shard's loop: it owns the registry, and turns each
/// event into the next state and the work for the loop to do.
pub struct Dispatcher<K> {
    registry: Registry<K>,
    codes: ReturnCodes,
    policy: DrainPolicy,
    closed: bool,
    stopped: bool,
}

impl<K> Dispatcher<K> {
    pub closed spec fn view(&self) -> DispatcherModel<K> {
        DispatcherModel {
            codes: self.codes,
            policy: self.policy,
            pending: self.registry@,
            closed: self.closed,
            stopped: self.stopped,
        }
    }

    pub closed spec fn wf(&self) -> bool {
        self.registry.wf() && model_wf(self@)
    }

    /// What a well-formed dispatcher's state satisfies, for the laws that are
    /// stated over its model.
    pub proof fn lemma_wf(&self)
        requires
            self.wf(),
        ensures
            model_wf(self@),
    {
    }

    pub fn new(codes: ReturnCodes, policy: DrainPolicy) -> (r: Dispatcher<K>)
        ensures
            r.wf(),
            r@ == (DispatcherModel::<K> { codes, policy, pending: seq![], closed: false, stopped: false }),
    {
        Dispatcher { registry: Registry::new(), codes, policy, closed: false, stopped: false }
    }

    pub fn state(&self) -> (r: DispatcherState)
        ensures
            r == state_of(self@),
    {
        if self.stopped {
            DispatcherState::Stopped
        } else if self.closed {
            DispatcherState::Draining
        } else if self.registry.is_empty() {
            DispatcherState::Idle
        } else {
            DispatcherState::Active
        }
    }

    pub fn pending_count(&self) -> (r: usize)
        ensures
            r == self@.pending.len(),
    {
        self.registry.len()
    }

    pub fn is_stopped(&self) -> (r: bool)
        ensures
            r == self@.stopped,
    {
        self.stopped
    }

    pub fn is_closed(&self) -> (r: bool)
        ensures
            r == self@.closed,
    {
        self.closed
    }

    fn dispatcher_error(status: u32, message: &str) -> (r: HyperError)
        ensures
            r@ == (ErrorModel { status, message: message@, location: dispatcher_location() }),
    {
        HyperError::new(status, message.to_string(), "dispatcher".to_string())
    }

    fn shutdown_failure(&self) -> (r: HyperError)
        ensures
            r@ == shutdown_error(self.codes),
    {
        Self::dispatcher_error(self.codes.interrupted, "the dispatcher shut down before the request completed")
    }

    fn duplicate_failure(&self) -> (r: HyperError)
        ensures
            r@ == duplicate_error(self.codes),
    {
        Self::dispatcher_error(self.codes.internal, "a request with this id is already in flight")
    }

    /// A new entry arrives through the intake: it is registered and the
    /// handle polled once; one whose id is already in flight is failed at once
    /// and reported.
    pub fn on_submitted(&mut self, e: PendingEntry<K>) -> (r: Step<K>)
        requires
            old(self).wf(),
            admits(old(self)@, EventModel::Submitted(e)),
        ensures
            final(self).wf(),
            final(self)@ == step_model(old(self)@, EventModel::Submitted(e)).0,
            r@ == step_model(old(self)@, EventModel::Submitted(e)).1,
    {
        let id = e.id;
        match self.registry.insert(e) {
            Ok(()) => {
                let r = Step { deliveries: Vec::new(), report: None, poll: true, destroy: false };
                assert(r@.delivered =~= seq![]);
                r
            },
            Err(back) => {
                let failure = self.duplicate_failure();
                let mut deliveries: Vec<Delivery<K>> = Vec::new();
                deliveries.push(Delivery { entry: back, outcome: Err(failure) });
                let r = Step {
                    deliveries,
                    report: Some(DispatchError::DuplicateId { id }),
                    poll: !self.registry.is_empty(),
                    destroy: false,
                };
                assert(r@.delivered =~= seq![(e, Some(duplicate_error(self.codes)))]);
                r
            },
        }
    }

    /// The liveness ticker fired: poll once if anything is in flight.
    pub fn on_tick(&mut self) -> (r: Step<K>)
        requires
            old(self).wf(),
            admits(old(self)@, EventModel::Ticked),
        ensures
            final(self).wf(),
            final(self)@ == step_model(old(self)@, EventModel::Ticked).0,
            r@ == step_model(old(self)@, EventModel::Ticked).1,
    {
        let r = Step { deliveries: Vec::new(), report: None, poll: !self.registry.is_empty(), destroy: false };
        assert(r@.delivered =~= seq![]);
        r
    }

    /// Stops the dispatcher if its intake has closed and nothing is in flight.
    fn settle_exec(&mut self, deliveries: Vec<Delivery<K>>, report: Option<DispatchError>) -> (r: Step<K>)
        requires
            old(self).wf(),
            !old(self)@.stopped,
        ensures
            final(self).wf(),
            final(self)@ == settle(old(self)@, deliveries@.map_values(|d: Delivery<K>| d@), match report {
                Some(x) => Some(x@),
                None => None,
            }).0,
            r@ == settle(old(self)@, deliveries@.map_values(|d: Delivery<K>| d@), match report {
                Some(x) => Some(x@),
                None => None,
            }).1,
    {
        if self.closed && self.registry.is_empty() {
            self.stopped = true;
            Step { deliveries, report, poll: false, destroy: true }
        } else {
            Step { deliveries, report, poll: false, destroy: false }
        }
    }

    /// A poll returned `ret` with `status`; `message` and `location` are what
    /// the handle said of its last error right after it. A completed request
    /// is taken out of the registry before its outcome is handed back.
    pub fn on_poll_result(&mut self, ret: i64, status: u32, message: String, location: String) -> (r: Step<K>)
        requires
            old(self).wf(),
            admits(old(self)@, EventModel::Polled { ret, status, message: message@, location: location@ }),
        ensures
            final(self).wf(),
            final(self)@ == step_model(old(self)@, EventModel::Polled { ret, status, message: message@, location: location@ }).0,
            r@ == step_model(old(self)@, EventModel::Polled { ret, status, message: message@, location: location@ }).1,
    {
        let ghost s = self@;
        if ret < 0 {
            let report = if status == self.codes.timeout || status == self.codes.none_pending {
                None
            } else {
                Some(DispatchError::Transport(HyperError::new(status, message, location)))
            };
            let deliveries: Vec<Delivery<K>> = Vec::new();
            assert(deliveries@.map_values(|d: Delivery<K>| d@) =~= seq![]);
            self.settle_exec(deliveries, report)
        } else {
            match self.registry.remove(ret) {
                None => {
                    let deliveries: Vec<Delivery<K>> = Vec::new();
                    assert(deliveries@.map_values(|d: Delivery<K>| d@) =~= seq![]);
                    self.settle_exec(deliveries, Some(DispatchError::Uncorrelated { id: ret, status }))
                },
                Some(e) => {
                    let outcome = if status == self.codes.success {
                        if e.status == self.codes.success {
                            Ok(())
                        } else {
                            Err(HyperError::new(e.status, message, location))
                        }
                    } else {
                        Err(HyperError::new(status, message, location))
                    };
                    let ghost o = completion_outcome(s.codes, e.status, status, message@, location@);
                    let mut deliveries: Vec<Delivery<K>> = Vec::new();
                    deliveries.push(Delivery { entry: e, outcome });
                    assert(deliveries@.map_values(|d: Delivery<K>| d@) =~= seq![(e, o)]);
                    self.settle_exec(deliveries, None)
                },
            }
        }
    }

    /// The intake closed. Under `FailPending` every entry still in flight is
    /// resolved with the shutdown error, in the order they arrived, and the
    /// handle destroyed after them; under `AwaitPending` the handle is
    /// destroyed once nothing is in flight.
    pub fn on_closed(&mut self) -> (r: Step<K>)
        requires
            old(self).wf(),
            admits(old(self)@, EventModel::Closed),
        ensures
            final(self).wf(),
            final(self)@ == step_model(old(self)@, EventModel::Closed).0,
            r@ == step_model(old(self)@, EventModel::Closed).1,
    {
        self.closed = true;
        match self.policy {
            DrainPolicy::FailPending => {
                let mut rest = self.registry.take_all();
                let ghost all = rest@;
                let mut deliveries: Vec<Delivery<K>> = Vec::new();
                while rest.len() > 0
                    invariant
                        all.len() == deliveries@.len() + rest@.len(),
                        rest@ == all.skip(deliveries@.len() as int),
                        deliveries@.map_values(|d: Delivery<K>| d@)
                            =~= shutdown_deliveries(self.codes, all.take(deliveries@.len() as int)),
                    decreases rest@.len(),
                {
                    let ghost k = deliveries@.len() as int;
                    let ghost before = deliveries@;
                    assert(rest@[0] == all[k]);
                    let e = rest.remove(0);
                    let failure = self.shutdown_failure();
                    let d = Delivery { entry: e, outcome: Err(failure) };
                    let ghost dv = d@;
                    deliveries.push(d);
                    assert(all.take(k + 1) =~= all.take(k).push(e));
                    assert(deliveries@.map_values(|d: Delivery<K>| d@)
                        =~= before.map_values(|d: Delivery<K>| d@).push(dv));
                    assert(shutdown_deliveries(self.codes, all.take(k).push(e))
                        =~= shutdown_deliveries(self.codes, all.take(k)).push((e, Some(shutdown_error(self.codes)))));
                    assert(rest@ =~= all.skip(k + 1));
                    assert(deliveries@.map_values(|d: Delivery<K>| d@)
                        =~= shutdown_deliveries(self.codes, all.take(k + 1)));
                }
                assert(all.take(all.len() as int) =~= all);
                self.stopped = true;
                Step { deliveries, report: None, poll: false, destroy: true }
            },
            DrainPolicy::AwaitPending => {
                let empty = self.registry.is_empty();
                if empty {
                    self.stopped = true;
                }
                let r = Step { deliveries: Vec::new(), report: None, poll: !empty, destroy: empty };
                assert(r@.delivered =~= seq![]);
                r
            },
        }
    }
}

} // verus!
