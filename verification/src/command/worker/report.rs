//! What a worker reports of a job, and what it keeps to report again.
use crate::command::crf_search::Sample;
use crate::command::sample_encode::Status;
use crate::command::worker::job;
use crate::command::worker::job::WorkerJob;
use crate::command::worker::pending;
use crate::command::worker_protocol::{
    CancelPayload, ClientEvent, CrfSearchProgressPayload, CrfSearchResultPayload, EncoderParams,
    HeartbeatPayload, TransferProgressPayload,
};
use crate::float::{Double, Single};
use crate::text;
use vstd::prelude::*;

verus! {

broadcast use vstd::string::group_string_axioms;

/// The same report again.
pub fn copy_progress(p: &CrfSearchProgressPayload) -> (r: CrfSearchProgressPayload)
    ensures
        r == *p,
{
    CrfSearchProgressPayload {
        video_id: p.video_id,
        percent: p.percent,
        filename: p.filename.clone(),
        eta: p.eta,
        fps: p.fps,
        crf: p.crf,
        sample_num: p.sample_num,
        total_samples: p.total_samples,
    }
}

/// The same report again.
pub fn copy_result(p: &CrfSearchResultPayload) -> (r: CrfSearchResultPayload)
    ensures
        r == *p,
{
    CrfSearchResultPayload {
        job_id: p.job_id.clone(),
        video_id: p.video_id,
        source_name: p.source_name.clone(),
        crf: p.crf,
        vmaf_score: p.vmaf_score,
        xpsnr_score: p.xpsnr_score,
        predicted_encode_size: p.predicted_encode_size,
        encode_percent: p.encode_percent,
        predicted_encode_time_secs: p.predicted_encode_time_secs,
        from_cache: p.from_cache,
        score: p.score,
        percent: p.percent,
        size: p.size,
        time: p.time,
        params: EncoderParams { encoder: p.params.encoder.clone(), preset: p.params.preset },
        target: p.target,
        chosen: p.chosen,
    }
}

/// The same report again.
pub fn copy_transfer(p: &TransferProgressPayload) -> (r: TransferProgressPayload)
    ensures
        r == *p,
{
    TransferProgressPayload {
        job_id: p.job_id.clone(),
        transfer_id: p.transfer_id.clone(),
        video_id: p.video_id,
        filename: p.filename.clone(),
        received_bytes: p.received_bytes,
        expected_bytes: p.expected_bytes,
        percent: p.percent,
        bytes_per_second: p.bytes_per_second,
        eta: p.eta,
        chunk_index: p.chunk_index,
        total_chunks: p.total_chunks,
    }
}

/// What was last reported of a job, and all of its results.
#[derive(Debug, PartialEq, Eq)]
pub struct WorkerJobReportState {
    pub heartbeat: Option<HeartbeatPayload>,
    pub transfer_progress: Option<TransferProgressPayload>,
    pub crf_progress: Option<CrfSearchProgressPayload>,
    pub crf_results: Vec<CrfSearchResultPayload>,
}

impl Default for WorkerJobReportState {
    /// Nothing was reported.
    fn default() -> (r: Self)
        ensures
            r.heartbeat is None,
            r.transfer_progress is None,
            r.crf_progress is None,
            r.crf_results@.len() == 0,
    {
        Self {
            heartbeat: None,
            transfer_progress: None,
            crf_progress: None,
            crf_results: Vec::new(),
        }
    }
}

/// What a report says, or nothing.
pub open spec fn opt_event(e: Option<ClientEvent>) -> Seq<ClientEvent> {
    match e {
        Some(event) => seq![event],
        None => Seq::empty(),
    }
}

impl WorkerJobReportState {
    /// All that is kept, in the order in which it is reported again.
    pub open spec fn events(self) -> Seq<ClientEvent> {
        opt_event(
            match self.heartbeat {
                Some(h) => Some(ClientEvent::Heartbeat(h)),
                None => None,
            },
        ) + opt_event(
            match self.transfer_progress {
                Some(t) => Some(ClientEvent::TransferProgress(t)),
                None => None,
            },
        ) + opt_event(
            match self.crf_progress {
                Some(p) => Some(ClientEvent::CrfSearchProgress(p)),
                None => None,
            },
        ) + self.crf_results@.map_values(
            |p: CrfSearchResultPayload| ClientEvent::CrfSearchResult(p),
        )
    }

    /// All that is to be reported again after a reconnect.
    pub fn replay(&self) -> (r: Vec<ClientEvent>)
        ensures
            r@ == self.events(),
    {
        let mut out: Vec<ClientEvent> = Vec::new();
        if let Some(heartbeat) = self.heartbeat {
            out.push(ClientEvent::Heartbeat(heartbeat));
        }
        if let Some(progress) = &self.transfer_progress {
            out.push(ClientEvent::TransferProgress(copy_transfer(progress)));
        }
        if let Some(progress) = &self.crf_progress {
            out.push(ClientEvent::CrfSearchProgress(copy_progress(progress)));
        }
        let ghost head = out@;
        let ghost tail = self.crf_results@.map_values(
            |p: CrfSearchResultPayload| ClientEvent::CrfSearchResult(p),
        );
        let mut i: usize = 0;
        while i < self.crf_results.len()
            invariant
                i <= self.crf_results.len(),
                tail == self.crf_results@.map_values(
                    |p: CrfSearchResultPayload| ClientEvent::CrfSearchResult(p),
                ),
                out@ =~= head + tail.take(i as int),
            decreases self.crf_results.len() - i,
        {
            out.push(ClientEvent::CrfSearchResult(copy_result(&self.crf_results[i])));
            i += 1;
        }
        assert(tail.take(i as int) =~= tail);
        assert(out@ =~= self.events());
        out
    }
}

/// What a search tells a worker. Times are in seconds, progress in percent.
#[derive(Debug, PartialEq, Eq)]
pub enum ReportUpdate {
    Done { sample: Sample, time_secs: Double },
    Status { crf: Single, status: Status, percent: Single },
    SampleResult,
    RunResult { sample: Sample, time_secs: Double },
}

/// The reporting of one job: what is kept, whether the server can be reached,
/// and the result that the server has not got yet.
#[derive(Debug, PartialEq, Eq)]
pub struct JobReporting {
    pub state: WorkerJobReportState,
    pub connected: bool,
    pub best: Option<Sample>,
}

impl JobReporting {
    /// Nothing was reported, and the server can be reached.
    pub fn new() -> (r: Self)
        ensures
            r.connected,
            r.best is None,
            r.state.heartbeat is None,
            r.state.transfer_progress is None,
            r.state.crf_progress is None,
            r.state.crf_results@.len() == 0,
    {
        Self { state: WorkerJobReportState::default(), connected: true, best: None }
    }

    /// A sign of life: it is kept, and sent where the server can be reached.
    pub fn heartbeat(&mut self, payload: HeartbeatPayload) -> (r: Option<ClientEvent>)
        ensures
            final(self).state.heartbeat == Some(payload),
            final(self).state.transfer_progress == old(self).state.transfer_progress,
            final(self).state.crf_progress == old(self).state.crf_progress,
            final(self).state.crf_results == old(self).state.crf_results,
            final(self).connected == old(self).connected,
            final(self).best == old(self).best,
            r == (if old(self).connected {
                Some(ClientEvent::Heartbeat(payload))
            } else {
                None
            }),
    {
        self.state.heartbeat = Some(payload);
        if self.connected {
            Some(ClientEvent::Heartbeat(payload))
        } else {
            None
        }
    }

    /// The search tells something: results and the last progress are kept, and
    /// sent where the server can be reached.
    pub fn on_update(&mut self, job: &WorkerJob, update: ReportUpdate) -> (r: Option<ClientEvent>)
        ensures
            final(self).connected == old(self).connected,
            final(self).state.heartbeat == old(self).state.heartbeat,
            final(self).state.transfer_progress == old(self).state.transfer_progress,
            !old(self).connected ==> r is None,
            match update {
                ReportUpdate::Done { sample, time_secs } => {
                    &&& final(self).best == Some(sample)
                    &&& final(self).state.crf_progress == old(self).state.crf_progress
                    &&& result_added(*old(self), *final(self), r, *job, sample, time_secs, true)
                },
                ReportUpdate::RunResult { sample, time_secs } => {
                    &&& final(self).best == old(self).best
                    &&& final(self).state.crf_progress == old(self).state.crf_progress
                    &&& result_added(*old(self), *final(self), r, *job, sample, time_secs, false)
                },
                ReportUpdate::Status { crf, status, percent } => {
                    &&& final(self).best == old(self).best
                    &&& final(self).state.crf_results == old(self).state.crf_results
                    &&& final(self).state.crf_progress matches Some(p) && p.video_id
                        == job.assignment.video_id && p.percent == percent && p.fps == status.fps
                        && p.crf == crf && p.sample_num == status.sample && p.total_samples
                        == status.samples && p.filename == job.assignment.source_name && p.eta is None
                    &&& old(self).connected ==> r == Some(
                        ClientEvent::CrfSearchProgress(final(self).state.crf_progress->0),
                    )
                },
                ReportUpdate::SampleResult => {
                    &&& final(self).best == old(self).best
                    &&& final(self).state.crf_results == old(self).state.crf_results
                    &&& final(self).state.crf_progress == old(self).state.crf_progress
                    &&& r is None
                },
            },
    {
        match update {
            ReportUpdate::Done { sample, time_secs } => {
                let payload = job.crf_result_payload(&sample, time_secs, true);
                self.best = Some(sample);
                self.keep_result(payload)
            },
            ReportUpdate::RunResult { sample, time_secs } => {
                let payload = job.crf_result_payload(&sample, time_secs, false);
                self.keep_result(payload)
            },
            ReportUpdate::Status { crf, status, percent } => {
                let payload = job.progress_payload(crf, &status, percent);
                let sent = copy_progress(&payload);
                self.state.crf_progress = Some(payload);
                if self.connected {
                    Some(ClientEvent::CrfSearchProgress(sent))
                } else {
                    None
                }
            },
            ReportUpdate::SampleResult => None,
        }
    }

    fn keep_result(&mut self, payload: CrfSearchResultPayload) -> (r: Option<ClientEvent>)
        ensures
            final(self).connected == old(self).connected,
            final(self).best == old(self).best,
            final(self).state.heartbeat == old(self).state.heartbeat,
            final(self).state.transfer_progress == old(self).state.transfer_progress,
            final(self).state.crf_progress == old(self).state.crf_progress,
            final(self).state.crf_results@ == old(self).state.crf_results@.push(payload),
            final(self).state.crf_results@.drop_last() == old(self).state.crf_results@,
            r == (if old(self).connected {
                Some(ClientEvent::CrfSearchResult(payload))
            } else {
                None
            }),
    {
        let sent = copy_result(&payload);
        self.state.crf_results.push(payload);
        assert(self.state.crf_results@.drop_last() =~= old(self).state.crf_results@);
        if self.connected {
            Some(ClientEvent::CrfSearchResult(sent))
        } else {
            None
        }
    }

    /// A report was sent or not: the job is done if the server has got its
    /// result; a server that did not get a report cannot be reached.
    pub fn after_send(&mut self, delivered: bool) -> (r: Option<Sample>)
        requires
            old(self).connected,
        ensures
            final(self).connected == delivered,
            final(self).state == old(self).state,
            delivered ==> r == old(self).best && final(self).best is None,
            !delivered ==> r is None && final(self).best == old(self).best,
    {
        if delivered {
            self.best.take()
        } else {
            self.connected = false;
            None
        }
    }

    /// The connection is lost.
    pub fn lost(&mut self)
        ensures
            !final(self).connected,
            final(self).state == old(self).state,
            final(self).best == old(self).best,
    {
        self.connected = false;
    }

    /// A new connection was made, on which all that is kept was reported again
    /// or not: the job is done if the server has got its result now.
    pub fn reconnected(&mut self, delivered: bool) -> (r: Option<Sample>)
        requires
            !old(self).connected,
        ensures
            final(self).connected == delivered,
            final(self).state == old(self).state,
            delivered ==> r == old(self).best && final(self).best is None,
            !delivered ==> r is None && final(self).best == old(self).best,
    {
        if delivered {
            self.connected = true;
            self.best.take()
        } else {
            None
        }
    }

    /// A message comes while a job runs: it is answered, the connection is given
    /// up, or the job is given up if it is this one that the server cancels.
    pub fn on_message(&self, job: &WorkerJob, message: JobMessage) -> (r: JobStep)
        ensures
            match message {
                JobMessage::Ping => r == JobStep::SendPong,
                JobMessage::Cancel(cancel) => if cancel.job_id@ == job.assignment.job_id@ {
                    r matches JobStep::Cancel(m) && m@ == pending::cancel_text(
                        cancel.job_id@,
                        cancel.reason@,
                    )
                } else {
                    r == JobStep::GoOn
                },
                JobMessage::Other => r == JobStep::GoOn,
                JobMessage::Gone => r == JobStep::Disconnect,
            },
    {
        match message {
            JobMessage::Ping => JobStep::SendPong,
            JobMessage::Cancel(cancel) => match self.on_cancel(job, &cancel) {
                Some(reason) => JobStep::Cancel(reason),
                None => JobStep::GoOn,
            },
            JobMessage::Other => JobStep::GoOn,
            JobMessage::Gone => JobStep::Disconnect,
        }
    }

    /// The server cancels a job: what is reported if it is this one.
    pub fn on_cancel(&self, job: &WorkerJob, cancel: &CancelPayload) -> (r: Option<String>)
        ensures
            match r {
                Some(m) => cancel.job_id@ == job.assignment.job_id@ && m@ == pending::cancel_text(
                    cancel.job_id@,
                    cancel.reason@,
                ),
                None => cancel.job_id@ != job.assignment.job_id@,
            },
    {
        if text::same(cancel.job_id.as_str(), job.assignment.job_id.as_str()) {
            Some(pending::cancel_message(cancel))
        } else {
            None
        }
    }
}

/// A message of the server while a job runs.
#[derive(Debug, PartialEq, Eq)]
pub enum JobMessage {
    Ping,
    Cancel(CancelPayload),
    /// A message that does not concern a job that runs.
    Other,
    /// The server closed the connection, or the connection broke or ended.
    Gone,
}

/// What is done about a message of the server while a job runs.
#[derive(Debug, PartialEq, Eq)]
pub enum JobStep {
    GoOn,
    SendPong,
    /// The connection is given up, and the job goes on.
    Disconnect,
    /// The job is given up, for this reason.
    Cancel(String),
}

/// Whether the result of an attempt was kept behind the others and, where the
/// server can be reached, sent.
pub open spec fn result_added(
    before: JobReporting,
    after: JobReporting,
    sent: Option<ClientEvent>,
    job: WorkerJob,
    sample: Sample,
    time_secs: Double,
    chosen: bool,
) -> bool {
    &&& after.state.crf_results@.len() == before.state.crf_results@.len() + 1
    &&& after.state.crf_results@.drop_last() == before.state.crf_results@
    &&& job::result_of(after.state.crf_results@.last(), job, sample, time_secs, chosen)
    &&& before.connected ==> sent == Some(
        ClientEvent::CrfSearchResult(after.state.crf_results@.last()),
    )
}

/// Every result that was kept is reported again after a reconnect, in the order
/// in which the results came.
pub proof fn law_results_survive_reconnects(state: WorkerJobReportState, i: int)
    requires
        0 <= i < state.crf_results@.len(),
    ensures
        state.events().len() >= state.crf_results@.len(),
        state.events()[state.events().len() - state.crf_results@.len() + i]
            == ClientEvent::CrfSearchResult(state.crf_results@[i]),
{
}

/// After a reconnect all that is kept is reported again, each once: the last
/// heartbeat, the last progress of each kind, and behind them every result in
/// the order in which they came.
pub proof fn law_all_that_is_kept_is_reported_again(state: WorkerJobReportState)
    ensures
        ({
            let events = state.events();
            let n = state.crf_results@.len();
            &&& state.heartbeat is Some <==> exists|i: int|
                0 <= i < events.len() && #[trigger] events[i] is Heartbeat
            &&& state.heartbeat is Some ==> events[0] == ClientEvent::Heartbeat(state.heartbeat->0)
            &&& state.transfer_progress is Some ==> events.contains(
                ClientEvent::TransferProgress(state.transfer_progress->0),
            )
            &&& state.crf_progress is Some ==> events.contains(
                ClientEvent::CrfSearchProgress(state.crf_progress->0),
            )
            &&& events.len() == n + (if state.heartbeat is Some {
                1int
            } else {
                0
            }) + (if state.transfer_progress is Some {
                1int
            } else {
                0
            }) + (if state.crf_progress is Some {
                1int
            } else {
                0
            })
            &&& forall|i: int|
                0 <= i < n ==> events[events.len() - n + i] == ClientEvent::CrfSearchResult(
                    #[trigger] state.crf_results@[i],
                )
        }),
{
    let a = opt_event(
        match state.heartbeat {
            Some(h) => Some(ClientEvent::Heartbeat(h)),
            None => None,
        },
    );
    let b = opt_event(
        match state.transfer_progress {
            Some(t) => Some(ClientEvent::TransferProgress(t)),
            None => None,
        },
    );
    let c = opt_event(
        match state.crf_progress {
            Some(p) => Some(ClientEvent::CrfSearchProgress(p)),
            None => None,
        },
    );
    let d = state.crf_results@.map_values(
        |p: CrfSearchResultPayload| ClientEvent::CrfSearchResult(p),
    );
    let events = state.events();
    assert(events == a + b + c + d);
    if state.heartbeat is Some {
        assert(events[0] is Heartbeat);
    } else {
        assert forall|i: int| 0 <= i < events.len() implies !(#[trigger] events[i] is Heartbeat) by {
            if i < b.len() {
                assert(events[i] == b[i]);
            } else if i < b.len() + c.len() {
                assert(events[i] == c[i - b.len()]);
            } else {
                assert(events[i] == d[i - b.len() - c.len()]);
            }
        }
    }
    if state.transfer_progress is Some {
        assert(events[a.len() as int] == b[0]);
    }
    if state.crf_progress is Some {
        assert(events[(a.len() + b.len()) as int] == c[0]);
    }
}

/// A result that comes in is kept behind all that were kept before, and is sent
/// at once where the server can be reached.
pub proof fn law_new_result_is_kept_and_sent(
    before: JobReporting,
    after: JobReporting,
    sent: Option<ClientEvent>,
    job: WorkerJob,
    sample: Sample,
    time_secs: Double,
    chosen: bool,
)
    requires
        result_added(before, after, sent, job, sample, time_secs, chosen),
    ensures
        forall|i: int|
            0 <= i < before.state.crf_results@.len() ==> (#[trigger] after.state.crf_results@[i])
                == before.state.crf_results@[i],
        after.state.crf_results@.len() == before.state.crf_results@.len() + 1,
        after.state.crf_results@.last().crf == sample.crf,
        after.state.crf_results@.last().chosen == chosen,
        before.connected ==> sent == Some(
            ClientEvent::CrfSearchResult(after.state.crf_results@.last()),
        ),
{
    assert forall|i: int| 0 <= i < before.state.crf_results@.len() implies (
    #[trigger] after.state.crf_results@[i]) == before.state.crf_results@[i] by {
        assert(after.state.crf_results@.drop_last()[i] == after.state.crf_results@[i]);
    }
}

} // verus!
