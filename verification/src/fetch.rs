//! One fetch task from start to end: probing peers until one answers, handing
//! the answer to the core, and waiting for the core's acknowledgement.
//!
//! The owner of the task performs each action and reports what came of it.

use crate::loopback::{
    acknowledgement_failure_prefix, after_acknowledgement, after_send, process_certificates_helper,
    send_failure_prefix, Handoff,
};
use crate::ordered_map::listing;
use crate::probe::{probe_step, PeerProbe, ProbeAction, ProbeEvent, ProbeView};
use crate::rules::MAX_CERTIFICATES_TO_FETCH;
use crate::types::{
    others, Certificate, DagError, FetchCertificatesResponse, NetworkPublicKey,
};
use crate::waiter::FetchTask;
use vstd::prelude::*;

verus! {

/// Where a fetch task stands.
#[derive(Clone, Copy, Debug, PartialEq, Eq, Structural)]
pub enum FetchPhase {
    /// Nothing has been asked yet.
    Start,
    /// Peers are being asked.
    Probing,
    /// Handoff, first half: the loopback message is being sent.
    Sending,
    /// Handoff, second half: the core's acknowledgement is awaited.
    Acknowledging,
    /// The core has acknowledged the certificates.
    DoneOk,
    /// The answer was oversized, or a channel to the core is closed.
    DoneErr,
}

/// What the owner of a fetch task reports to it.
#[derive(Debug, PartialEq, Eq)]
pub enum FetchEvent {
    /// The task was started.
    Started,
    /// A peer answered.
    PeerResponded(FetchCertificatesResponse),
    /// A call to a peer failed.
    PeerFailed,
    /// The interval passed without an answer.
    IntervalElapsed,
    /// The loopback message was sent, or could not be: then with the
    /// channel's own words.
    LoopbackSent(Result<(), String>),
    /// The core acknowledged, or the acknowledgement channel was closed
    /// without a signal: then with the channel's own words.
    Acknowledged(Result<(), String>),
}

/// What the owner of a fetch task does next.
pub enum FetchAction {
    /// Send the request to `peer` and wait for an answer from any open call,
    /// for one interval at most. With `fresh_pass`, drop the open calls first.
    Request { peer: NetworkPublicKey, fresh_pass: bool },
    /// There is no peer to ask: the task can only be cancelled.
    Stall,
    /// Drop the open calls and send this message on the loopback channel.
    Handoff(Handoff),
    /// Wait for the core's acknowledgement.
    AwaitAcknowledgement,
    /// The task is over: with the number of certificates that the core has
    /// processed, or with what went wrong.
    Finish(Result<usize, DagError>),
    /// The event does not belong to the phase; nothing changed.
    Ignore,
}

impl FetchAction {
    /// The action as an action of probing, where it is one.
    pub open spec fn probing(self) -> Option<ProbeAction> {
        match self {
            FetchAction::Request { peer, fresh_pass } => Some(
                ProbeAction::Request { peer, fresh_pass },
            ),
            FetchAction::Stall => Some(ProbeAction::Stall),
            _ => None,
        }
    }

    /// The certificates that the action hands to the core, where it hands
    /// any.
    pub open spec fn handed_off(self) -> Option<Seq<Certificate>> {
        match self {
            FetchAction::Handoff(handoff) => Some(handoff.message.certificates@),
            _ => None,
        }
    }
}

/// A fetch task between two events.
pub struct FetchRunView {
    pub phase: FetchPhase,
    pub probe: ProbeView,
    /// How many certificates were handed to the core.
    pub count: nat,
}

/// One step of probing within a fetch task.
pub open spec fn probing_step(
    pre: FetchRunView,
    event: ProbeEvent,
    post: FetchRunView,
    action: FetchAction,
) -> bool {
    &&& post.phase == FetchPhase::Probing
    &&& post.count == pre.count
    &&& match action.probing() {
        Some(probe_action) => probe_step(pre.probe, event, post.probe, probe_action),
        None => false,
    }
}

/// The task ends in failure with a report that a channel is closed: `prefix`,
/// then the channel's own words.
pub open spec fn closes(
    pre: FetchRunView,
    post: FetchRunView,
    action: FetchAction,
    prefix: Seq<char>,
    detail: String,
) -> bool {
    &&& post == (FetchRunView { phase: FetchPhase::DoneErr, ..pre })
    &&& match action {
        FetchAction::Finish(Err(DagError::ClosedChannel(report))) => report@ == prefix + detail@,
        _ => false,
    }
}

/// One step of a fetch task: from `pre` on `event` to `post` with `action`.
pub open spec fn fetch_step(
    pre: FetchRunView,
    event: FetchEvent,
    post: FetchRunView,
    action: FetchAction,
) -> bool {
    match (pre.phase, event) {
        (FetchPhase::Start, FetchEvent::Started) => probing_step(
            pre,
            ProbeEvent::Start,
            post,
            action,
        ),
        (FetchPhase::Probing, FetchEvent::PeerFailed) => probing_step(
            pre,
            ProbeEvent::Failed,
            post,
            action,
        ),
        (FetchPhase::Probing, FetchEvent::IntervalElapsed) => probing_step(
            pre,
            ProbeEvent::IntervalElapsed,
            post,
            action,
        ),
        (FetchPhase::Probing, FetchEvent::PeerResponded(response)) => if response.certificates@.len()
            <= MAX_CERTIFICATES_TO_FETCH {
            &&& post == (FetchRunView {
                phase: FetchPhase::Sending,
                count: response.certificates@.len(),
                ..pre
            })
            &&& action.handed_off() == Some(response.certificates@)
        } else {
            &&& post == (FetchRunView { phase: FetchPhase::DoneErr, ..pre })
            &&& action matches FetchAction::Finish(Err(error))
            &&& error == DagError::TooManyFetchedCertificatesReturned(
                response.certificates.len(),
                MAX_CERTIFICATES_TO_FETCH,
            )
        },
        (FetchPhase::Sending, FetchEvent::LoopbackSent(Ok(_))) => {
            &&& post == (FetchRunView { phase: FetchPhase::Acknowledging, ..pre })
            &&& action is AwaitAcknowledgement
        },
        (FetchPhase::Sending, FetchEvent::LoopbackSent(Err(detail))) => closes(
            pre,
            post,
            action,
            send_failure_prefix(),
            detail,
        ),
        (FetchPhase::Acknowledging, FetchEvent::Acknowledged(Ok(_))) => {
            &&& post == (FetchRunView { phase: FetchPhase::DoneOk, ..pre })
            &&& action matches FetchAction::Finish(Ok(count))
            &&& count == pre.count
        },
        (FetchPhase::Acknowledging, FetchEvent::Acknowledged(Err(detail))) => closes(
            pre,
            post,
            action,
            acknowledgement_failure_prefix(),
            detail,
        ),
        _ => post == pre && action is Ignore,
    }
}

/// A running fetch task.
pub struct FetchRun {
    phase: FetchPhase,
    probe: PeerProbe,
    count: usize,
}

impl View for FetchRun {
    type V = FetchRunView;

    closed spec fn view(&self) -> FetchRunView {
        FetchRunView { phase: self.phase, probe: self.probe@, count: self.count as nat }
    }
}

impl FetchRun {
    /// A fetch task that has not asked anyone yet.
    pub fn new(task: &FetchTask) -> (run: FetchRun)
        ensures
            run@.phase == FetchPhase::Start,
            run@.probe.peers == others(listing(task.committee@.authorities), task.name),
            run@.probe.asked == run@.probe.peers.len(),
            run@.count == 0,
    {
        FetchRun { phase: FetchPhase::Start, probe: task.probe(), count: 0 }
    }

    pub fn phase(&self) -> (phase: FetchPhase)
        ensures
            phase == self@.phase,
    {
        self.phase
    }

    /// The request that probing makes next.
    fn ask(&mut self, event: ProbeEvent) -> (action: FetchAction)
        requires
            !(event is Responded),
        ensures
            probing_step(old(self)@, event, final(self)@, action),
    {
        self.phase = FetchPhase::Probing;
        match self.probe.step(event) {
            ProbeAction::Request { peer, fresh_pass } => FetchAction::Request { peer, fresh_pass },
            ProbeAction::Stall => FetchAction::Stall,
            ProbeAction::Return(_) => {
                proof {
                    assert(false);
                }
                FetchAction::Ignore
            },
        }
    }

    /// Takes in what came of the last action and says what to do next.
    pub fn step(&mut self, event: FetchEvent) -> (action: FetchAction)
        ensures
            fetch_step(old(self)@, event, final(self)@, action),
    {
        match self.phase {
            FetchPhase::Start => match event {
                FetchEvent::Started => self.ask(ProbeEvent::Start),
                _ => FetchAction::Ignore,
            },
            FetchPhase::Probing => match event {
                FetchEvent::PeerFailed => self.ask(ProbeEvent::Failed),
                FetchEvent::IntervalElapsed => self.ask(ProbeEvent::IntervalElapsed),
                FetchEvent::PeerResponded(response) => {
                    let count = response.certificates.len();
                    match process_certificates_helper(response) {
                        Ok(handoff) => {
                            self.phase = FetchPhase::Sending;
                            self.count = count;
                            FetchAction::Handoff(handoff)
                        },
                        Err(error) => {
                            self.phase = FetchPhase::DoneErr;
                            FetchAction::Finish(Err(error))
                        },
                    }
                },
                _ => FetchAction::Ignore,
            },
            FetchPhase::Sending => match event {
                FetchEvent::LoopbackSent(sent) => match after_send(sent) {
                    Ok(_) => {
                        self.phase = FetchPhase::Acknowledging;
                        FetchAction::AwaitAcknowledgement
                    },
                    Err(error) => {
                        self.phase = FetchPhase::DoneErr;
                        FetchAction::Finish(Err(error))
                    },
                },
                _ => FetchAction::Ignore,
            },
            FetchPhase::Acknowledging => match event {
                FetchEvent::Acknowledged(acknowledged) => {
                    let result = after_acknowledgement(self.count, acknowledged);
                    self.phase = match result {
                        Ok(_) => FetchPhase::DoneOk,
                        Err(_) => FetchPhase::DoneErr,
                    };
                    FetchAction::Finish(result)
                },
                _ => FetchAction::Ignore,
            },
            FetchPhase::DoneOk => FetchAction::Ignore,
            FetchPhase::DoneErr => FetchAction::Ignore,
        }
    }
}

} // verus!
