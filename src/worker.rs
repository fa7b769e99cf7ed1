use vstd::prelude::*;
use crate::key::{base_url, key_spec, sse_url, sse_url_spec, subscription_key, trim_trailing_slashes};
use crate::message::{dispatch_of, plan_dispatch, qualifies, Dispatch, NtfyMessage};

verus! {

/// The fixed wait, in milliseconds, before a failed or closed connection is tried again.
pub const BACKOFF_MS: u64 = 5000;

/// Where a subscription worker stands.
#[derive(Clone, Copy, Debug, PartialEq, Eq, Structural)]
pub enum WorkerPhase {
    /// Opening the stream.
    Connecting,
    /// Reading frames from an open stream.
    Streaming,
    /// Waiting before the next connection attempt.
    BackoffWait,
    /// Stopped for good.
    Cancelled,
}

/// What the outside world reports to a worker.
#[derive(Debug)]
pub enum WorkerEvent {
    /// The stream was opened.
    Connected,
    /// The stream could not be opened.
    ConnectFailed,
    /// The stream signalled that it is open.
    Opened,
    /// A frame's payload, decoded into a message, or `None` where it was malformed.
    Message(Option<NtfyMessage>),
    /// The stream failed or was closed.
    StreamEnded,
    /// The backoff wait is over.
    BackoffElapsed,
    /// The subscription was cancelled.
    Cancel,
}

/// What a worker asks the outside world to do next.
#[derive(Debug)]
pub enum WorkerAction {
    /// Open the stream at this address.
    Connect(String),
    /// Read the next frame.
    ReadNext,
    /// Wait this many milliseconds.
    Sleep(u64),
    /// Show the notification and emit the event, then read the next frame.
    Notify(Dispatch),
    /// Stop: no more I/O and no more dispatch.
    Stop,
}

/// The reconnecting reader of one subscription.
#[derive(Debug)]
pub struct SubscriptionWorker {
    pub phase: WorkerPhase,
    /// The server address without trailing slashes.
    pub base_url: String,
    /// The stream endpoint, `<server>/<topic>/sse`.
    pub sse_url: String,
}

/// The phase a worker moves to on an event.
pub open spec fn next_phase(p: WorkerPhase, e: WorkerEvent) -> WorkerPhase {
    if p is Cancelled || e is Cancel {
        WorkerPhase::Cancelled
    } else if p is Connecting && e is Connected {
        WorkerPhase::Streaming
    } else if p is Connecting && e is ConnectFailed {
        WorkerPhase::BackoffWait
    } else if p is Streaming && e is StreamEnded {
        WorkerPhase::BackoffWait
    } else if p is BackoffWait && e is BackoffElapsed {
        WorkerPhase::Connecting
    } else {
        p
    }
}

/// The event carries a message that is to be shown to the user.
pub open spec fn carries_qualifying(e: WorkerEvent) -> bool {
    e matches WorkerEvent::Message(Some(m)) && qualifies(m)
}

/// A worker in phase `p` dispatches on event `e`.
pub open spec fn notifies(p: WorkerPhase, e: WorkerEvent) -> bool {
    p is Streaming && carries_qualifying(e)
}

/// The action that carries a worker on in its phase.
pub open spec fn resumes(w: SubscriptionWorker, a: WorkerAction) -> bool {
    match w.phase {
        WorkerPhase::Connecting => a matches WorkerAction::Connect(u) && u@ == w.sse_url@,
        WorkerPhase::Streaming => a is ReadNext,
        WorkerPhase::BackoffWait => a == WorkerAction::Sleep(BACKOFF_MS),
        WorkerPhase::Cancelled => a is Stop,
    }
}

/// `a` is the action of worker `w` on event `e`.
pub open spec fn action_of(w: SubscriptionWorker, e: WorkerEvent, a: WorkerAction) -> bool {
    if notifies(w.phase, e) {
        a matches WorkerAction::Notify(d) && dispatch_of(d, w.base_url@, e->Message_0->Some_0)
    } else {
        resumes(SubscriptionWorker { phase: next_phase(w.phase, e), ..w }, a)
    }
}

/// The phase after a sequence of events.
pub open spec fn phase_after(p: WorkerPhase, es: Seq<WorkerEvent>) -> WorkerPhase
    decreases es.len(),
{
    if es.len() == 0 {
        p
    } else {
        next_phase(phase_after(p, es.drop_last()), es.last())
    }
}

/// Once cancelled, a worker stays cancelled whatever happens.
pub proof fn lemma_cancelled_stays(es: Seq<WorkerEvent>)
    ensures
        phase_after(WorkerPhase::Cancelled, es) == WorkerPhase::Cancelled,
    decreases es.len(),
{
    if es.len() > 0 {
        lemma_cancelled_stays(es.drop_last());
    }
}

/// After a cancellation no event, in any phase and whatever the stream still
/// delivers, leads to a notification or an event being dispatched.
pub proof fn lemma_no_dispatch_after_cancel(p: WorkerPhase, es: Seq<WorkerEvent>)
    ensures
        forall|i: int|
            0 <= i < es.len() ==> !notifies(
                #[trigger] phase_after(next_phase(p, WorkerEvent::Cancel), es.take(i)),
                es[i],
            ),
{
    assert forall|i: int| 0 <= i < es.len() implies !notifies(
        #[trigger] phase_after(next_phase(p, WorkerEvent::Cancel), es.take(i)),
        es[i],
    ) by {
        lemma_cancelled_stays(es.take(i));
    }
}

/// A message whose event kind is not `message` is never dispatched.
pub proof fn lemma_other_kinds_not_dispatched(p: WorkerPhase, m: NtfyMessage)
    requires
        !qualifies(m),
    ensures
        !notifies(p, WorkerEvent::Message(Some(m))),
{
}

/// A malformed payload leaves a streaming worker streaming, and a well-formed
/// message after it on the same connection is still dispatched.
pub proof fn lemma_malformed_payload_skipped(m: NtfyMessage)
    requires
        qualifies(m),
    ensures
        phase_after(WorkerPhase::Streaming, seq![WorkerEvent::Message(None)])
            == WorkerPhase::Streaming,
        notifies(
            phase_after(WorkerPhase::Streaming, seq![WorkerEvent::Message(None)]),
            WorkerEvent::Message(Some(m)),
        ),
{
    let es = seq![WorkerEvent::Message(None)];
    assert(es.drop_last() =~= Seq::<WorkerEvent>::empty());
    assert(es.last() == WorkerEvent::Message(None));
    assert(phase_after(WorkerPhase::Streaming, es.drop_last()) == WorkerPhase::Streaming);
    assert(phase_after(WorkerPhase::Streaming, es) == next_phase(
        WorkerPhase::Streaming,
        WorkerEvent::Message(None),
    ));
}

impl SubscriptionWorker {
    /// A worker for `topic` on `server_url`, about to connect.
    pub fn new(server_url: &str, topic: &str) -> (r: SubscriptionWorker)
        ensures
            r.phase == WorkerPhase::Connecting,
            r.base_url@ == trim_trailing_slashes(server_url@),
            r.sse_url@ == sse_url_spec(key_spec(server_url@, topic@)),
    {
        let key = subscription_key(server_url, topic);
        SubscriptionWorker {
            phase: WorkerPhase::Connecting,
            base_url: String::from_str(base_url(server_url)),
            sse_url: sse_url(key.as_str()),
        }
    }

    /// The action that carries the worker on in its current phase.
    pub fn pending_action(&self) -> (a: WorkerAction)
        ensures
            resumes(*self, a),
    {
        match self.phase {
            WorkerPhase::Connecting => WorkerAction::Connect(self.sse_url.clone()),
            WorkerPhase::Streaming => WorkerAction::ReadNext,
            WorkerPhase::BackoffWait => WorkerAction::Sleep(BACKOFF_MS),
            WorkerPhase::Cancelled => WorkerAction::Stop,
        }
    }

    /// Takes one event and returns what to do next. A cancelled worker only ever
    /// stops; a message is dispatched only while streaming and only if its kind
    /// is `message`; a failed or closed stream leads to a fixed wait and then a
    /// new connection.
    pub fn step(&mut self, event: WorkerEvent) -> (a: WorkerAction)
        ensures
            final(self).phase == next_phase(old(self).phase, event),
            final(self).base_url == old(self).base_url,
            final(self).sse_url == old(self).sse_url,
            action_of(*old(self), event, a),
            a is Notify ==> notifies(old(self).phase, event),
    {
        if matches!(self.phase, WorkerPhase::Cancelled) {
            return WorkerAction::Stop;
        }
        match event {
            WorkerEvent::Cancel => {
                self.phase = WorkerPhase::Cancelled;
                WorkerAction::Stop
            },
            WorkerEvent::Connected => {
                if matches!(self.phase, WorkerPhase::Connecting) {
                    self.phase = WorkerPhase::Streaming;
                }
                self.pending_action()
            },
            WorkerEvent::ConnectFailed => {
                if matches!(self.phase, WorkerPhase::Connecting) {
                    self.phase = WorkerPhase::BackoffWait;
                }
                self.pending_action()
            },
            WorkerEvent::StreamEnded => {
                if matches!(self.phase, WorkerPhase::Streaming) {
                    self.phase = WorkerPhase::BackoffWait;
                }
                self.pending_action()
            },
            WorkerEvent::BackoffElapsed => {
                if matches!(self.phase, WorkerPhase::BackoffWait) {
                    self.phase = WorkerPhase::Connecting;
                }
                self.pending_action()
            },
            WorkerEvent::Opened => self.pending_action(),
            WorkerEvent::Message(decoded) => {
                if !matches!(self.phase, WorkerPhase::Streaming) {
                    return self.pending_action();
                }
                match decoded {
                    Some(msg) => match plan_dispatch(self.base_url.as_str(), msg) {
                        Some(d) => WorkerAction::Notify(d),
                        None => WorkerAction::ReadNext,
                    },
                    None => WorkerAction::ReadNext,
                }
            },
        }
    }
}

} // verus!
