//! Messages between a worker and its server.
use crate::float::{Double, Single};
use crate::outside;
use crate::text;
use vstd::prelude::*;

verus! {

broadcast use vstd::string::group_string_axioms;

/// The topic on which workers and server talk.
pub open spec fn topic() -> Seq<char> {
    "workers:crf_search"@
}

/// The topic on which workers and server talk.
pub fn crf_search_topic() -> (r: &'static str)
    ensures
        r@ == topic(),
{
    "workers:crf_search"
}

/// Nothing to say.
#[derive(Debug, Clone, Copy, PartialEq, Eq, Structural)]
pub struct EmptyPayload {}

/// A request for work.
#[derive(Debug, Clone, Copy, PartialEq, Eq, Structural)]
pub struct PullWorkPayload {
    pub input_missing: bool,
}

impl Default for PullWorkPayload {
    fn default() -> (r: Self)
        ensures
            !r.input_missing,
    {
        Self { input_missing: false }
    }
}

impl PullWorkPayload {
    /// A request for the input of the job in progress.
    pub fn input_missing() -> (r: Self)
        ensures
            r.input_missing,
    {
        Self { input_missing: true }
    }
}

/// Whether a value is left out of a message.
pub fn is_false(value: &bool) -> (r: bool)
    ensures
        r == !*value,
{
    !*value
}

/// What a worker can do.
#[derive(Debug, Clone, Copy, PartialEq, Eq, Structural)]
pub struct Capabilities {
    pub crf_search: bool,
}

/// How a worker introduces itself.
#[derive(Debug, PartialEq, Eq)]
pub struct AnnouncePayload {
    pub worker_id: String,
    pub protocol_version: u64,
    pub version: String,
    pub capabilities: Capabilities,
}

/// The state of a worker's machine.
#[derive(Debug, Clone, Copy, PartialEq, Eq, Structural)]
pub struct HeartbeatPayload {
    pub cpu_percent: Option<Single>,
    pub memory_rss_bytes: Option<u64>,
    pub memory_total_bytes: Option<u64>,
    pub disk_free_bytes: Option<u64>,
    pub disk_total_bytes: Option<u64>,
    pub active_video_id: Option<u64>,
}

/// How far a crf search has come.
#[derive(Debug, PartialEq, Eq)]
pub struct CrfSearchProgressPayload {
    pub video_id: u64,
    pub percent: Single,
    pub filename: String,
    pub eta: Option<Double>,
    pub fps: Single,
    pub crf: Single,
    pub sample_num: u64,
    pub total_samples: u64,
}

/// The encoder settings that a result was made with.
#[derive(Debug, PartialEq, Eq)]
pub struct EncoderParams {
    pub encoder: String,
    pub preset: u64,
}

/// A result of a crf search.
#[derive(Debug, PartialEq, Eq)]
pub struct CrfSearchResultPayload {
    pub job_id: String,
    pub video_id: u64,
    pub source_name: String,
    pub crf: Single,
    pub vmaf_score: Option<Single>,
    pub xpsnr_score: Option<Single>,
    pub predicted_encode_size: u64,
    pub encode_percent: Double,
    pub predicted_encode_time_secs: Double,
    pub from_cache: bool,
    pub score: Single,
    pub percent: Double,
    pub size: u64,
    pub time: Double,
    pub params: EncoderParams,
    pub target: Single,
    pub chosen: bool,
}

/// Where a failure happened.
#[derive(Debug, PartialEq, Eq)]
pub struct FailureContext {
    pub job_id: String,
    pub source_name: String,
    pub error_chain: String,
}

/// A job that failed.
#[derive(Debug, PartialEq, Eq)]
pub struct FailureReportPayload {
    pub video_id: u64,
    pub stage: String,
    pub category: String,
    pub message: String,
    pub code: String,
    pub context: FailureContext,
    pub retriable: bool,
    pub stderr_excerpt: Option<String>,
}

/// How far the transfer of an input has come.
#[derive(Debug, PartialEq, Eq)]
pub struct TransferProgressPayload {
    pub job_id: String,
    pub transfer_id: String,
    pub video_id: u64,
    pub filename: String,
    pub received_bytes: u64,
    pub expected_bytes: Option<u64>,
    pub percent: Double,
    pub bytes_per_second: u64,
    pub eta: Option<u64>,
    pub chunk_index: u64,
    pub total_chunks: u64,
}

/// The step of a transfer.
#[derive(Debug, Clone, Copy, PartialEq, Eq, Structural)]
pub enum TransferStage {
    ReceiveChunk,
    ValidateChunk,
    FinalizeTransfer,
    RunCrfSearch,
}

impl TransferStage {
    /// The name of the step in messages.
    pub fn as_str(&self) -> (r: &'static str)
        ensures
            r@ == (match self {
                TransferStage::ReceiveChunk => "receive_chunk"@,
                TransferStage::ValidateChunk => "validate_chunk"@,
                TransferStage::FinalizeTransfer => "finalize_transfer"@,
                TransferStage::RunCrfSearch => "run_crf_search"@,
            }),
    {
        match self {
            Self::ReceiveChunk => "receive_chunk",
            Self::ValidateChunk => "validate_chunk",
            Self::FinalizeTransfer => "finalize_transfer",
            Self::RunCrfSearch => "run_crf_search",
        }
    }
}

/// A transfer that failed.
#[derive(Debug, PartialEq, Eq)]
pub struct TransferFailurePayload {
    pub job_id: String,
    pub stage: TransferStage,
    pub retriable: bool,
    pub reason: String,
}

/// A transfer that is about to begin.
#[derive(Debug, PartialEq, Eq)]
pub struct TransferStartedPayload {
    pub chunk_size_bytes: u64,
    pub size_bytes: u64,
    pub source_name: String,
    pub status: String,
    pub total_bytes: u64,
    pub total_chunks: u64,
    pub transfer_id: String,
    pub video_id: u64,
}

/// A job that is not to be worked on any more.
#[derive(Debug, PartialEq, Eq)]
pub struct CancelPayload {
    pub job_id: String,
    pub reason: String,
}

/// What a worker tells the server.
#[derive(Debug, PartialEq, Eq)]
pub enum ClientEvent {
    Join,
    Announce(AnnouncePayload),
    PullWork(PullWorkPayload),
    Heartbeat(HeartbeatPayload),
    TransferProgress(TransferProgressPayload),
    TransferFailure(TransferFailurePayload),
    CrfSearchProgress(CrfSearchProgressPayload),
    CrfSearchResult(CrfSearchResultPayload),
    VideoFailed(FailureReportPayload),
}

/// The body of a worker's message.
#[derive(Debug, PartialEq, Eq)]
pub enum ClientPayload {
    Empty(EmptyPayload),
    Announce(AnnouncePayload),
    PullWork(PullWorkPayload),
    Heartbeat(HeartbeatPayload),
    TransferProgress(TransferProgressPayload),
    TransferFailure(TransferFailurePayload),
    Progress(CrfSearchProgressPayload),
    Result(CrfSearchResultPayload),
    Failure(FailureReportPayload),
}

/// The name of an event in messages.
pub open spec fn event_name(event: ClientEvent) -> Seq<char> {
    match event {
        ClientEvent::Join => "phx_join"@,
        ClientEvent::Announce(_) => "announce"@,
        ClientEvent::PullWork(_) => "pull_work"@,
        ClientEvent::Heartbeat(_) => "heartbeat"@,
        ClientEvent::TransferProgress(_) => "transfer_progress"@,
        ClientEvent::TransferFailure(_) => "transfer_failed"@,
        ClientEvent::CrfSearchProgress(_) => "crf_search_progress"@,
        ClientEvent::CrfSearchResult(_) => "crf_search_result"@,
        ClientEvent::VideoFailed(_) => "video_failed"@,
    }
}

/// The body of an event's message.
pub open spec fn event_payload(event: ClientEvent) -> ClientPayload {
    match event {
        ClientEvent::Join => ClientPayload::Empty(EmptyPayload {  }),
        ClientEvent::Announce(p) => ClientPayload::Announce(p),
        ClientEvent::PullWork(p) => ClientPayload::PullWork(p),
        ClientEvent::Heartbeat(p) => ClientPayload::Heartbeat(p),
        ClientEvent::TransferProgress(p) => ClientPayload::TransferProgress(p),
        ClientEvent::TransferFailure(p) => ClientPayload::TransferFailure(p),
        ClientEvent::CrfSearchProgress(p) => ClientPayload::Progress(p),
        ClientEvent::CrfSearchResult(p) => ClientPayload::Result(p),
        ClientEvent::VideoFailed(p) => ClientPayload::Failure(p),
    }
}

impl ClientEvent {
    /// The name and the body of the event's message.
    pub fn into_parts(self) -> (r: (&'static str, ClientPayload))
        ensures
            r.0@ == event_name(self),
            r.1 == event_payload(self),
    {
        match self {
            Self::Join => ("phx_join", ClientPayload::Empty(EmptyPayload {  })),
            Self::Announce(payload) => ("announce", ClientPayload::Announce(payload)),
            Self::PullWork(payload) => ("pull_work", ClientPayload::PullWork(payload)),
            Self::Heartbeat(payload) => ("heartbeat", ClientPayload::Heartbeat(payload)),
            Self::TransferProgress(payload) => (
                "transfer_progress",
                ClientPayload::TransferProgress(payload),
            ),
            Self::TransferFailure(payload) => (
                "transfer_failed",
                ClientPayload::TransferFailure(payload),
            ),
            Self::CrfSearchProgress(payload) => (
                "crf_search_progress",
                ClientPayload::Progress(payload),
            ),
            Self::CrfSearchResult(payload) => ("crf_search_result", ClientPayload::Result(payload)),
            Self::VideoFailed(payload) => ("video_failed", ClientPayload::Failure(payload)),
        }
    }
}

/// A message of a worker: join reference, reference, topic, event and body.
#[derive(Debug, PartialEq, Eq)]
pub struct ClientFrame(pub String, pub String, pub String, pub String, pub ClientPayload);

impl ClientFrame {
    /// The message of an event, to which a reply refers by `reference`.
    pub fn new(reference: u64, event: ClientEvent) -> (r: Self)
        ensures
            r.0@ == "1"@,
            r.1@ == text::dec(reference as nat),
            r.2@ == topic(),
            r.3@ == event_name(event),
            r.4 == event_payload(event),
    {
        let (event_name, payload) = event.into_parts();
        Self(
            "1".to_owned(),
            text::dec_string(reference),
            crf_search_topic().to_owned(),
            event_name.to_owned(),
            payload,
        )
    }
}

/// Messages with different references are told apart by them.
pub proof fn law_references_distinct(a: u64, b: u64)
    ensures
        text::dec(a as nat) == text::dec(b as nat) ==> a == b,
{
    text::law_dec_round_trip(a);
    text::law_dec_round_trip(b);
}

/// The body of a reply.
#[derive(Debug, PartialEq, Eq)]
pub struct ReplyBody<T> {
    pub status: String,
    pub response: T,
}

impl<T> ReplyBody<T> {
    /// A reply that grants a request.
    pub fn ok(response: T) -> (r: Self)
        ensures
            r.status@ == "ok"@,
            r.response == response,
    {
        Self { status: "ok".to_owned(), response }
    }

    /// A reply that refuses a request.
    pub fn error(response: T) -> (r: Self)
        ensures
            r.status@ == "error"@,
            r.response == response,
    {
        Self { status: "error".to_owned(), response }
    }
}

/// A reply of the server.
#[derive(Debug, PartialEq, Eq)]
pub struct ServerFrame<T>(
    pub Option<String>,
    pub String,
    pub String,
    pub String,
    pub ReplyBody<T>,
);

impl<T> ServerFrame<T> {
    /// The reply to a message.
    pub fn reply(reference: u64, body: ReplyBody<T>) -> (r: Self)
        ensures
            r.0 is None,
            r.1@ == text::dec(reference as nat),
            r.2@ == topic(),
            r.3@ == "phx_reply"@,
            r.4 == body,
    {
        Self(
            None,
            text::dec_string(reference),
            crf_search_topic().to_owned(),
            "phx_reply".to_owned(),
            body,
        )
    }
}

/// A message of the server that answers nothing.
#[derive(Debug, PartialEq, Eq)]
pub struct ServerPushFrame<T>(
    pub Option<String>,
    pub Option<String>,
    pub String,
    pub String,
    pub T,
);

impl<T> ServerPushFrame<T> {
    /// The message of an event.
    pub fn new(event: &str, payload: T) -> (r: Self)
        ensures
            r.0 is None,
            r.1 is None,
            r.2@ == topic(),
            r.3@ == event@,
            r.4 == payload,
    {
        Self(None, None, crf_search_topic().to_owned(), event.to_owned(), payload)
    }
}

/// What the server has for a worker.
#[derive(Debug, Clone, Copy, PartialEq, Eq, Structural)]
pub enum WorkStatus {
    NoWork,
    JobAssigned,
    JobInProgress,
}

impl WorkStatus {
    /// The name of the status in messages.
    pub open spec fn name(self) -> Seq<char> {
        match self {
            WorkStatus::NoWork => "no_work"@,
            WorkStatus::JobAssigned => "job_assigned"@,
            WorkStatus::JobInProgress => "job_in_progress"@,
        }
    }

    /// The name of the status in messages.
    pub fn as_str(&self) -> (r: &'static str)
        ensures
            r@ == self.name(),
    {
        match self {
            Self::NoWork => "no_work",
            Self::JobAssigned => "job_assigned",
            Self::JobInProgress => "job_in_progress",
        }
    }

    /// The status of this name.
    pub fn from_name(name: &str) -> (r: Option<Self>)
        ensures
            r matches Some(s) ==> s.name() == name@,
            forall|s: Self| #[trigger] s.name() == name@ ==> r == Some(s),
    {
        proof {
            law_status_names_distinct();
            assert(WorkStatus::NoWork.name() == "no_work"@);
            assert(WorkStatus::JobAssigned.name() == "job_assigned"@);
            assert(WorkStatus::JobInProgress.name() == "job_in_progress"@);
        }
        if text::same(name, "no_work") {
            Some(Self::NoWork)
        } else if text::same(name, "job_assigned") {
            Some(Self::JobAssigned)
        } else if text::same(name, "job_in_progress") {
            Some(Self::JobInProgress)
        } else {
            None
        }
    }
}

/// No two statuses have the same name.
pub proof fn law_status_names_distinct()
    ensures
        forall|a: WorkStatus, b: WorkStatus| #[trigger] a.name() == #[trigger] b.name() ==> a == b,
{
    reveal_strlit("no_work");
    reveal_strlit("job_assigned");
    reveal_strlit("job_in_progress");
    assert forall|a: WorkStatus, b: WorkStatus| #[trigger] a.name() == #[trigger] b.name()
        implies a == b by {
        assert(a.name().len() == b.name().len());
    }
}

/// A reply without a job.
#[derive(Debug, Clone, Copy, PartialEq, Eq, Structural)]
pub struct NoWorkPayload {
    pub status: WorkStatus,
}

impl NoWorkPayload {
    /// The reply with a status; one that says nothing means no work.
    pub fn from_status(status: Option<WorkStatus>) -> (r: Self)
        ensures
            r.status == (match status {
                Some(s) => s,
                None => WorkStatus::NoWork,
            }),
    {
        match status {
            Some(status) => Self { status },
            None => Self { status: WorkStatus::NoWork },
        }
    }
}

/// How a worker proves that it may fetch an input.
#[derive(Debug, PartialEq, Eq)]
pub struct TransferAuth {
    pub scheme: String,
    pub header: String,
    pub value: String,
}

/// Where a worker fetches an input.
#[derive(Debug, PartialEq, Eq)]
pub struct TransferSpec {
    pub url: String,
    pub auth: TransferAuth,
}

/// A job.
#[derive(Debug, PartialEq, Eq)]
pub struct JobAssignedPayload {
    pub status: WorkStatus,
    pub job_id: String,
    pub video_id: u64,
    pub source_name: String,
    pub size_bytes: u64,
    pub chunk_size_bytes: u64,
    pub target_vmaf: Single,
    pub transfer: Option<TransferSpec>,
    pub crf_search_args: Vec<String>,
}

/// The answer to a request for work.
#[derive(Debug, PartialEq, Eq)]
pub enum ServerReply {
    JobAssigned(JobAssignedPayload),
    NoWork(NoWorkPayload),
}

/// Why a request was refused.
#[derive(Debug, PartialEq, Eq)]
pub struct ErrorReplyPayload {
    pub reason: String,
    pub supported_protocol_versions: Vec<u64>,
}

impl ErrorReplyPayload {
    /// A refusal for a reason.
    pub fn new(reason: &str) -> (r: Self)
        ensures
            r.reason@ == reason@,
            r.supported_protocol_versions@ == Seq::<u64>::empty(),
    {
        Self { reason: reason.to_owned(), supported_protocol_versions: Vec::new() }
    }

    /// The refusal with the protocol versions that the server speaks.
    pub fn with_supported_protocol_versions(self, versions: Vec<u64>) -> (r: Self)
        ensures
            r.reason == self.reason,
            r.supported_protocol_versions == versions,
    {
        Self { supported_protocol_versions: versions, ..self }
    }
}

/// The digits of each number.
pub open spec fn dec_list(v: Seq<u64>) -> Seq<Seq<char>> {
    v.map_values(|n: u64| text::dec(n as nat))
}

/// Numbers in square brackets with commas between them.
pub open spec fn list_text(v: Seq<u64>) -> Seq<char> {
    "["@ + text::joined(dec_list(v), ", "@) + "]"@
}

/// Numbers in square brackets with commas between them.
pub fn list_string(v: &[u64]) -> (r: String)
    ensures
        r@ == list_text(v@),
{
    let mut parts: Vec<String> = Vec::new();
    let ghost all = dec_list(v@);
    let mut i: usize = 0;
    while i < v.len()
        invariant
            i <= v.len(),
            all == dec_list(v@),
            text::views(parts@) == all.take(i as int),
        decreases v.len() - i,
    {
        let ghost before = text::views(parts@);
        parts.push(text::dec_string(v[i]));
        proof {
            assert(text::views(parts@) =~= before.push(all[i as int]));
            assert(before.push(all[i as int]) =~= all.take(i + 1));
        }
        i += 1;
    }
    assert(all.take(i as int) =~= all);
    text::cat3("[", text::join(parts.as_slice(), ", ").as_str(), "]")
}

/// What is reported of a refused request: the reason, and the protocol
/// versions that the server speaks if it names any.
pub open spec fn refusal_text(
    event: Seq<char>,
    reason: Seq<char>,
    versions: Seq<u64>,
) -> Seq<char> {
    event + " failed: "@ + reason + (if versions.len() == 0 {
        Seq::empty()
    } else {
        " (supported_protocol_versions="@ + list_text(versions) + ")"@
    })
}

/// How a reply is to be read.
#[derive(Debug, PartialEq, Eq)]
pub enum ReplyRoute {
    /// The response is what was asked for.
    Granted,
    /// The response says why the request was refused.
    Refused,
    /// A status that means nothing, with what to report.
    Unexpected(String),
}

/// Whether a message is the reply to the message with `expected_ref`.
pub fn is_reply_to(msg_ref: &Option<String>, topic: &str, event: &str, expected_ref: &str) -> (r:
    bool)
    ensures
        r == (topic@ == self::topic() && event@ == "phx_reply"@ && (msg_ref matches Some(m) && m@
            == expected_ref@)),
{
    if !text::same(topic, crf_search_topic()) || !text::same(event, "phx_reply") {
        return false;
    }
    match msg_ref {
        Some(m) => text::same(m.as_str(), expected_ref),
        None => false,
    }
}

/// How a reply with this status is to be read.
pub fn route_reply(status: &str) -> (r: ReplyRoute)
    ensures
        match r {
            ReplyRoute::Granted => status@ == "ok"@,
            ReplyRoute::Refused => status@ == "error"@,
            ReplyRoute::Unexpected(m) => status@ != "ok"@ && status@ != "error"@ && m@
                == "unexpected phoenix status "@ + status@,
        },
{
    proof {
        reveal_strlit("ok");
        reveal_strlit("error");
        assert("ok"@.len() != "error"@.len());
    }
    if text::same(status, "ok") {
        ReplyRoute::Granted
    } else if text::same(status, "error") {
        ReplyRoute::Refused
    } else {
        ReplyRoute::Unexpected(text::cat2("unexpected phoenix status ", status))
    }
}

/// What is reported of a refused request.
pub fn refusal_message(event: &str, error: &ErrorReplyPayload) -> (r: String)
    ensures
        r@ == refusal_text(event@, error.reason@, error.supported_protocol_versions@),
{
    let mut out = text::cat3(event, " failed: ", error.reason.as_str());
    if error.supported_protocol_versions.len() > 0 {
        let versions = list_string(error.supported_protocol_versions.as_slice());
        let more = text::cat3(" (supported_protocol_versions=", versions.as_str(), ")");
        out.append(more.as_str());
    } else {
        assert(out@ + Seq::<char>::empty() =~= out@);
    }
    out
}

/// What a message that answers nothing means to a worker.
#[derive(Debug, Clone, Copy, PartialEq, Eq, Structural)]
pub enum PushRoute {
    Ignore,
    Cancel,
    Started,
}

/// What a message on `topic` with `event` means to a worker. Replies are not
/// for the one who waits for pushes.
pub fn route_push(topic: &str, event: &str) -> (r: PushRoute)
    ensures
        r == (if topic@ != self::topic() {
            PushRoute::Ignore
        } else if event@ == "cancel"@ {
            PushRoute::Cancel
        } else if event@ == "transfer_started"@ {
            PushRoute::Started
        } else {
            PushRoute::Ignore
        }),
{
    if !text::same(topic, crf_search_topic()) {
        PushRoute::Ignore
    } else if text::same(event, "cancel") {
        PushRoute::Cancel
    } else if text::same(event, "transfer_started") {
        PushRoute::Started
    } else {
        PushRoute::Ignore
    }
}

/// A message of the server, with its body as JSON text.
#[derive(Debug, PartialEq, Eq)]
pub struct FrameText {
    pub msg_ref: Option<String>,
    pub topic: String,
    pub event: String,
    pub payload: String,
}

/// A [`FrameText`] as mathematical values: reference, topic, event and body.
pub type FrameView = (Option<Seq<char>>, Seq<char>, Seq<char>, Seq<char>);

impl View for FrameText {
    type V = FrameView;

    open spec fn view(&self) -> FrameView {
        (
            match self.msg_ref {
                Some(m) => Some(m@),
                None => None,
            },
            self.topic@,
            self.event@,
            self.payload@,
        )
    }
}

/// A message that answers nothing, with its body as JSON text.
#[derive(Debug, PartialEq, Eq)]
pub enum PushText {
    Ignore,
    Cancel(String),
    Started(String),
}

/// What a text message means to a worker that waits for pushes. Text that is
/// no message is ignored.
pub fn decode_worker_push(text: &str) -> (r: PushText)
    ensures
        match outside::phoenix_frame(text@) {
            None => r is Ignore,
            Some((_, t, event, payload)) => if t != topic() {
                r is Ignore
            } else if event == "cancel"@ {
                r matches PushText::Cancel(p) && p@ == payload
            } else if event == "transfer_started"@ {
                r matches PushText::Started(p) && p@ == payload
            } else {
                r is Ignore
            },
        },
{
    push_of(outside::parse_phoenix_frame(text))
}

/// What a message means to a worker that waits for pushes, if it is one.
pub fn push_of(frame: Option<FrameText>) -> (r: PushText)
    ensures
        match frame {
            None => r is Ignore,
            Some(f) => if f.topic@ != topic() {
                r is Ignore
            } else if f.event@ == "cancel"@ {
                r matches PushText::Cancel(p) && p@ == f.payload@
            } else if f.event@ == "transfer_started"@ {
                r matches PushText::Started(p) && p@ == f.payload@
            } else {
                r is Ignore
            },
        },
{
    match frame {
        Some(frame) => match route_push(frame.topic.as_str(), frame.event.as_str()) {
            PushRoute::Ignore => PushText::Ignore,
            PushRoute::Cancel => PushText::Cancel(frame.payload),
            PushRoute::Started => PushText::Started(frame.payload),
        },
        None => PushText::Ignore,
    }
}

/// What a text message is to one that waits for a reply.
#[derive(Debug, PartialEq, Eq)]
pub enum ReplyText {
    /// No message.
    Malformed,
    /// A message that is not the reply.
    Other,
    /// The body of the reply.
    Body(String),
}

/// What a text message is to one that waits for the reply to `expected_ref`.
pub fn decode_reply(text: &str, expected_ref: &str) -> (r: ReplyText)
    ensures
        match outside::phoenix_frame(text@) {
            None => r is Malformed,
            Some((msg_ref, t, event, payload)) => if t == topic() && event == "phx_reply"@
                && msg_ref == Some(expected_ref@) {
                r matches ReplyText::Body(p) && p@ == payload
            } else {
                r is Other
            },
        },
{
    reply_of(outside::parse_phoenix_frame(text), expected_ref)
}

/// What a message is to one that waits for the reply to `expected_ref`, if it
/// is a message.
pub fn reply_of(frame: Option<FrameText>, expected_ref: &str) -> (r: ReplyText)
    ensures
        match frame {
            None => r is Malformed,
            Some(f) => if f.topic@ == topic() && f.event@ == "phx_reply"@ && (
            f.msg_ref matches Some(m) && m@ == expected_ref@) {
                r matches ReplyText::Body(p) && p@ == f.payload@
            } else {
                r is Other
            },
        },
{
    match frame {
        Some(frame) => if is_reply_to(
            &frame.msg_ref,
            frame.topic.as_str(),
            frame.event.as_str(),
            expected_ref,
        ) {
            ReplyText::Body(frame.payload)
        } else {
            ReplyText::Other
        },
        None => ReplyText::Malformed,
    }
}

/// Each kind of event has its own name in messages.
pub proof fn law_events_by_name(event: ClientEvent)
    ensures
        event_name(event) == "phx_join"@ <==> event is Join,
        event_name(event) == "announce"@ <==> event is Announce,
        event_name(event) == "pull_work"@ <==> event is PullWork,
        event_name(event) == "heartbeat"@ <==> event is Heartbeat,
        event_name(event) == "transfer_progress"@ <==> event is TransferProgress,
        event_name(event) == "transfer_failed"@ <==> event is TransferFailure,
        event_name(event) == "crf_search_progress"@ <==> event is CrfSearchProgress,
        event_name(event) == "crf_search_result"@ <==> event is CrfSearchResult,
        event_name(event) == "video_failed"@ <==> event is VideoFailed,
{
    reveal_strlit("phx_join");
    reveal_strlit("announce");
    reveal_strlit("pull_work");
    reveal_strlit("heartbeat");
    reveal_strlit("transfer_progress");
    reveal_strlit("transfer_failed");
    reveal_strlit("crf_search_progress");
    reveal_strlit("crf_search_result");
    reveal_strlit("video_failed");
    assert("phx_join"@.len() == 8 && "announce"@.len() == 8);
    assert("phx_join"@[0] == 'p' && "announce"@[0] == 'a');
    assert("pull_work"@.len() == 9 && "heartbeat"@.len() == 9);
    assert("pull_work"@[0] == 'p' && "heartbeat"@[0] == 'h');
    assert("transfer_progress"@.len() == 17 && "crf_search_result"@.len() == 17);
    assert("transfer_progress"@[0] == 't' && "crf_search_result"@[0] == 'c');
    assert("transfer_failed"@.len() == 15 && "crf_search_progress"@.len() == 19
        && "video_failed"@.len() == 12);
}

/// The body of a message is what the event holds, and nothing for joining.
pub proof fn law_payload_is_what_the_event_holds(event: ClientEvent)
    ensures
        match event_payload(event) {
            ClientPayload::Empty(_) => event is Join,
            ClientPayload::Announce(p) => event == ClientEvent::Announce(p),
            ClientPayload::PullWork(p) => event == ClientEvent::PullWork(p),
            ClientPayload::Heartbeat(p) => event == ClientEvent::Heartbeat(p),
            ClientPayload::TransferProgress(p) => event == ClientEvent::TransferProgress(p),
            ClientPayload::TransferFailure(p) => event == ClientEvent::TransferFailure(p),
            ClientPayload::Progress(p) => event == ClientEvent::CrfSearchProgress(p),
            ClientPayload::Result(p) => event == ClientEvent::CrfSearchResult(p),
            ClientPayload::Failure(p) => event == ClientEvent::VideoFailed(p),
        },
{
}

/// Which status each name stands for.
pub proof fn law_statuses_by_name(status: WorkStatus)
    ensures
        status.name() == "no_work"@ <==> status == WorkStatus::NoWork,
        status.name() == "job_assigned"@ <==> status == WorkStatus::JobAssigned,
        status.name() == "job_in_progress"@ <==> status == WorkStatus::JobInProgress,
{
    reveal_strlit("no_work");
    reveal_strlit("job_assigned");
    reveal_strlit("job_in_progress");
    assert("no_work"@.len() == 7 && "job_assigned"@.len() == 12 && "job_in_progress"@.len() == 15);
}

} // verus!
