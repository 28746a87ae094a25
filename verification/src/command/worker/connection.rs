//! The connection of a worker, and what it does on it.
use crate::command::worker::job::{InputDelivery, WorkerJobPhase};
use crate::command::worker::pending::PendingJobOutcome;
use crate::command::worker::WorkerConfig;
use crate::command::worker_protocol;
use crate::command::worker_protocol::{
    AnnouncePayload, Capabilities, ClientEvent, ClientFrame, ReplyText,
};
use crate::outside;
use crate::text;
use vstd::prelude::*;

verus! {

broadcast use vstd::string::group_string_axioms;

/// The reference of the first message, with which a worker joins.
pub const JOIN_REF: u64 = 1;

/// The reference of the second message, with which a worker introduces itself.
pub const ANNOUNCE_REF: u64 = 2;

/// The message with which a worker joins.
pub fn join_frame() -> (r: ClientFrame)
    ensures
        r.0@ == "1"@,
        r.1@ == text::dec(JOIN_REF as nat),
        r.2@ == worker_protocol::topic(),
        r.3@ == "phx_join"@,
        r.4 == worker_protocol::event_payload(ClientEvent::Join),
{
    ClientFrame::new(JOIN_REF, ClientEvent::Join)
}

/// The message with which a worker introduces itself.
pub fn announce_frame(config: &WorkerConfig) -> (r: ClientFrame)
    ensures
        r.0@ == "1"@,
        r.1@ == text::dec(ANNOUNCE_REF as nat),
        r.2@ == worker_protocol::topic(),
        r.3@ == "announce"@,
        r.4 == worker_protocol::event_payload(
            ClientEvent::Announce(
                AnnouncePayload {
                    worker_id: config.worker_id,
                    protocol_version: config.protocol_version,
                    version: config.version,
                    capabilities: Capabilities { crf_search: true },
                },
            ),
        ),
{
    ClientFrame::new(
        ANNOUNCE_REF,
        ClientEvent::Announce(
            AnnouncePayload {
                worker_id: config.worker_id.clone(),
                protocol_version: config.protocol_version,
                version: config.version.clone(),
                capabilities: Capabilities { crf_search: true },
            },
        ),
    )
}

/// A worker that the server has accepted.
#[derive(Debug, PartialEq, Eq)]
pub struct Connection {
    pub assigned_worker_id: String,
    pub negotiated_protocol_version: u64,
    /// The reference of the next message.
    pub next_ref: u64,
}

impl Connection {
    /// The connection of a worker, if the server accepts it.
    pub fn establish(worker_id: String, accepted: bool, protocol_version: u64) -> (r: Result<
        Self,
        &'static str,
    >)
        ensures
            match r {
                Ok(c) => accepted && c.assigned_worker_id == worker_id
                    && c.negotiated_protocol_version == protocol_version && c.next_ref == 3,
                Err(e) => !accepted && e@ == "worker announcement was not accepted"@,
            },
    {
        if !accepted {
            return Err("worker announcement was not accepted");
        }
        Ok(
            Self {
                assigned_worker_id: worker_id,
                negotiated_protocol_version: protocol_version,
                next_ref: 3,
            },
        )
    }

    /// The message of an event, and its reference. Each message has a reference
    /// of its own, higher than those before it.
    pub fn next_frame(&mut self, event: ClientEvent) -> (r: (u64, ClientFrame))
        requires
            old(self).next_ref < u64::MAX,
        ensures
            r.0 == old(self).next_ref,
            final(self).next_ref == old(self).next_ref + 1,
            final(self).assigned_worker_id == old(self).assigned_worker_id,
            final(self).negotiated_protocol_version == old(self).negotiated_protocol_version,
            r.1.0@ == "1"@,
            r.1.1@ == text::dec(old(self).next_ref as nat),
            r.1.2@ == worker_protocol::topic(),
            r.1.3@ == worker_protocol::event_name(event),
            r.1.4 == worker_protocol::event_payload(event),
    {
        let reference: u64 = self.next_ref;
        self.next_ref = reference + 1;
        (reference, ClientFrame::new(reference, event))
    }
}

// ---- replies ----

/// A message while a reply is waited for.
#[derive(Debug, PartialEq, Eq)]
pub enum ReplyMessage {
    Text(String),
    Close(String),
    Ended,
    Other,
}

/// What is to be done with a message while a reply is waited for.
#[derive(Debug, PartialEq, Eq)]
pub enum ReplyStep {
    /// Wait on.
    Continue,
    /// Read this body, which is JSON text.
    Body(String),
    /// Give up, for this reason.
    Fail(String),
}

/// What is to be done with a text message while a reply is waited for.
pub fn step_of(read: ReplyText) -> (r: ReplyStep)
    ensures
        match read {
            ReplyText::Malformed => r matches ReplyStep::Fail(m) && m@ == "decode phoenix frame"@,
            ReplyText::Other => r is Continue,
            ReplyText::Body(body) => r == ReplyStep::Body(body),
        },
{
    match read {
        ReplyText::Malformed => ReplyStep::Fail("decode phoenix frame".to_owned()),
        ReplyText::Other => ReplyStep::Continue,
        ReplyText::Body(body) => ReplyStep::Body(body),
    }
}

/// Takes a message while the reply to an event is waited for.
pub fn expect_reply(message: ReplyMessage, expected_ref: &str, expected_event: &str) -> (r: ReplyStep)
    ensures
        match message {
            ReplyMessage::Text(t) => match outside::phoenix_frame(t@) {
                None => r matches ReplyStep::Fail(m) && m@ == "decode phoenix frame"@,
                Some((msg_ref, topic, event, payload)) => if topic == worker_protocol::topic()
                    && event == "phx_reply"@ && msg_ref == Some(expected_ref@) {
                    r matches ReplyStep::Body(b) && b@ == payload
                } else {
                    r is Continue
                },
            },
            ReplyMessage::Close(frame) => r matches ReplyStep::Fail(m) && m@
                == "websocket closed before "@ + expected_event@ + " reply: "@ + frame@,
            ReplyMessage::Ended => r matches ReplyStep::Fail(m) && m@ == "websocket ended before "@
                + expected_event@ + " reply"@,
            ReplyMessage::Other => r is Continue,
        },
{
    match message {
        ReplyMessage::Text(t) => step_of(worker_protocol::decode_reply(t.as_str(), expected_ref)),
        ReplyMessage::Close(frame) => ReplyStep::Fail(
            text::cat4("websocket closed before ", expected_event, " reply: ", frame.as_str()),
        ),
        ReplyMessage::Ended => ReplyStep::Fail(
            text::cat3("websocket ended before ", expected_event, " reply"),
        ),
        ReplyMessage::Other => ReplyStep::Continue,
    }
}

// ---- the loop ----

/// What a connected worker does next.
#[derive(Debug, Clone, Copy, PartialEq, Eq, Structural)]
pub enum LoopStep {
    /// Ask for work.
    Pull,
    /// Wait before asking again.
    Sleep,
    /// Find out how far the assigned job is.
    Prepare,
    /// Download the input.
    Download,
    /// Ask for the input to be sent again.
    RequestResend,
    /// Wait for parts of the input.
    WaitForInput,
    /// Run the job.
    RunJob,
    /// Stop.
    Stop,
}

/// What came of a step.
#[derive(Debug, Clone, Copy, PartialEq, Eq, Structural)]
pub enum LoopEvent {
    /// The server answered, with a job or without.
    Pulled { assigned: bool },
    /// The time is over.
    Slept,
    /// The job is this far.
    Phase(WorkerJobPhase),
    /// The input was downloaded or not.
    Downloaded(bool),
    /// The server will send the input again.
    Resent,
    /// Something came of waiting for the input.
    Outcome(PendingJobOutcome),
    /// The job is done.
    JobDone,
}

/// Whether an event can come of a step.
pub open spec fn follows(step: LoopStep, event: LoopEvent) -> bool {
    match (step, event) {
        (LoopStep::Pull, LoopEvent::Pulled { .. }) => true,
        (LoopStep::Sleep, LoopEvent::Slept) => true,
        (LoopStep::Prepare, LoopEvent::Phase(_)) => true,
        (LoopStep::Download, LoopEvent::Downloaded(_)) => true,
        (LoopStep::RequestResend, LoopEvent::Resent) => true,
        (LoopStep::WaitForInput, LoopEvent::Outcome(_)) => true,
        (LoopStep::RunJob, LoopEvent::JobDone) => true,
        _ => false,
    }
}

/// The step after an event, where `pulls` is the number of answers, with this
/// one.
pub open spec fn step_after(event: LoopEvent, pulls: nat, max_pulls: Option<usize>) -> LoopStep {
    match event {
        LoopEvent::Pulled { assigned } => if assigned {
            LoopStep::Prepare
        } else if max_pulls matches Some(max) && max == pulls {
            LoopStep::Stop
        } else {
            LoopStep::Sleep
        },
        LoopEvent::Slept => LoopStep::Pull,
        LoopEvent::Phase(phase) => match phase {
            WorkerJobPhase::InputReady => LoopStep::RunJob,
            WorkerJobPhase::CrfSearching => LoopStep::RunJob,
            WorkerJobPhase::AwaitingInput(InputDelivery::Http) => LoopStep::Download,
            WorkerJobPhase::AwaitingInput(InputDelivery::Resend) => LoopStep::RequestResend,
            WorkerJobPhase::AwaitingInput(InputDelivery::Websocket) => LoopStep::WaitForInput,
        },
        LoopEvent::Downloaded(done) => if done {
            LoopStep::RunJob
        } else {
            LoopStep::RequestResend
        },
        LoopEvent::Resent => LoopStep::WaitForInput,
        LoopEvent::Outcome(outcome) => match outcome {
            PendingJobOutcome::Waiting => LoopStep::WaitForInput,
            PendingJobOutcome::Canceled => LoopStep::Pull,
            PendingJobOutcome::Ready => LoopStep::RunJob,
        },
        LoopEvent::JobDone => LoopStep::Pull,
    }
}

/// The steps of a connected worker, and how often it was answered.
#[derive(Debug, Clone, Copy, PartialEq, Eq, Structural)]
pub struct WorkerLoop {
    pub step: LoopStep,
    pub completed_pulls: usize,
    pub max_pulls: Option<usize>,
}

impl WorkerLoop {
    /// A worker that is about to ask for work.
    pub fn new(completed_pulls: usize, max_pulls: Option<usize>) -> (r: Self)
        ensures
            r.step == LoopStep::Pull,
            r.completed_pulls == completed_pulls,
            r.max_pulls == max_pulls,
    {
        Self { step: LoopStep::Pull, completed_pulls, max_pulls }
    }

    /// Goes on to the next step.
    pub fn on_event(&mut self, event: LoopEvent) -> (r: LoopStep)
        requires
            follows(old(self).step, event),
            old(self).completed_pulls < usize::MAX,
        ensures
            final(self).completed_pulls == old(self).completed_pulls + (if event is Pulled {
                1int
            } else {
                0int
            }),
            final(self).max_pulls == old(self).max_pulls,
            final(self).step == step_after(
                event,
                final(self).completed_pulls as nat,
                old(self).max_pulls,
            ),
            r == final(self).step,
    {
        let step = match event {
            LoopEvent::Pulled { assigned } => {
                self.completed_pulls = self.completed_pulls + 1;
                let enough = match self.max_pulls {
                    Some(max) => max == self.completed_pulls,
                    None => false,
                };
                if assigned {
                    LoopStep::Prepare
                } else if enough {
                    LoopStep::Stop
                } else {
                    LoopStep::Sleep
                }
            },
            LoopEvent::Slept => LoopStep::Pull,
            LoopEvent::Phase(phase) => match phase {
                WorkerJobPhase::InputReady => LoopStep::RunJob,
                WorkerJobPhase::CrfSearching => LoopStep::RunJob,
                WorkerJobPhase::AwaitingInput(InputDelivery::Http) => LoopStep::Download,
                WorkerJobPhase::AwaitingInput(InputDelivery::Resend) => LoopStep::RequestResend,
                WorkerJobPhase::AwaitingInput(InputDelivery::Websocket) => LoopStep::WaitForInput,
            },
            LoopEvent::Downloaded(done) => if done {
                LoopStep::RunJob
            } else {
                LoopStep::RequestResend
            },
            LoopEvent::Resent => LoopStep::WaitForInput,
            LoopEvent::Outcome(outcome) => match outcome {
                PendingJobOutcome::Waiting => LoopStep::WaitForInput,
                PendingJobOutcome::Canceled => LoopStep::Pull,
                PendingJobOutcome::Ready => LoopStep::RunJob,
            },
            LoopEvent::JobDone => LoopStep::Pull,
        };
        self.step = step;
        step
    }
}

/// A job is run only once its input is there: it was there from the start, was
/// downloaded, or arrived whole.
pub proof fn law_job_runs_with_input(event: LoopEvent, pulls: nat, max_pulls: Option<usize>)
    ensures
        step_after(event, pulls, max_pulls) == LoopStep::RunJob ==> event == LoopEvent::Phase(
            WorkerJobPhase::InputReady,
        ) || event == LoopEvent::Phase(WorkerJobPhase::CrfSearching) || event
            == LoopEvent::Downloaded(true) || event == LoopEvent::Outcome(PendingJobOutcome::Ready),
{
}

/// A job is run as soon as its input is there: where it is there from the start
/// or is no longer needed, where its download is done, and where it has arrived
/// whole.
pub proof fn law_job_runs_once_its_input_is_there(pulls: nat, max_pulls: Option<usize>)
    ensures
        forall|event: LoopEvent|
            {
                ||| event == LoopEvent::Phase(WorkerJobPhase::InputReady)
                ||| event == LoopEvent::Phase(WorkerJobPhase::CrfSearching)
                ||| event == LoopEvent::Downloaded(true)
                ||| event == LoopEvent::Outcome(PendingJobOutcome::Ready)
            } ==> #[trigger] step_after(event, pulls, max_pulls) == LoopStep::RunJob,
{
}

/// An input that is missing is fetched in the way in which it is delivered, and
/// asked for again where its download failed. A worker waits for it once it was
/// asked for, for as long as parts of it are missing.
pub proof fn law_missing_input_is_fetched(pulls: nat, max_pulls: Option<usize>)
    ensures
        forall|event: LoopEvent|
            #![trigger step_after(event, pulls, max_pulls)]
            {
                let next = step_after(event, pulls, max_pulls);
                &&& next == LoopStep::Download <==> event == LoopEvent::Phase(
                    WorkerJobPhase::AwaitingInput(InputDelivery::Http),
                )
                &&& next == LoopStep::RequestResend <==> event == LoopEvent::Phase(
                    WorkerJobPhase::AwaitingInput(InputDelivery::Resend),
                ) || event == LoopEvent::Downloaded(false)
                &&& next == LoopStep::WaitForInput <==> event == LoopEvent::Phase(
                    WorkerJobPhase::AwaitingInput(InputDelivery::Websocket),
                ) || event == LoopEvent::Resent || event == LoopEvent::Outcome(
                    PendingJobOutcome::Waiting,
                )
            },
{
}

/// Work that is assigned is prepared at once. A worker that gets none stops
/// where it has asked as often as it may, and sleeps before it asks again
/// otherwise. It asks again after each sleep, each job, and each job that was
/// taken back.
pub proof fn law_worker_asks_until_its_limit(pulls: nat, max_pulls: Option<usize>)
    ensures
        forall|event: LoopEvent|
            #![trigger step_after(event, pulls, max_pulls)]
            {
                let next = step_after(event, pulls, max_pulls);
                &&& next == LoopStep::Prepare <==> event == LoopEvent::Pulled { assigned: true }
                &&& next == LoopStep::Stop <==> event == LoopEvent::Pulled { assigned: false }
                    && max_pulls is Some && max_pulls->0 == pulls
                &&& next == LoopStep::Sleep <==> event == LoopEvent::Pulled { assigned: false }
                    && !(max_pulls is Some && max_pulls->0 == pulls)
                &&& next == LoopStep::Pull <==> event == LoopEvent::Slept || event
                    == LoopEvent::JobDone || event == LoopEvent::Outcome(
                    PendingJobOutcome::Canceled,
                )
            },
{
}

/// A worker without a limit never stops.
pub proof fn law_worker_without_limit_goes_on(event: LoopEvent, pulls: nat)
    ensures
        step_after(event, pulls, None) != LoopStep::Stop,
{
}

} // verus!
