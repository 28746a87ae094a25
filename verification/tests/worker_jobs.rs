use ab_av1::command::args::encode::{Encode, Encoder};
use ab_av1::command::args::vmaf::Vmaf;
use ab_av1::command::args::{Sample as SampleArgs, ScoreArgs, Xpsnr};
use ab_av1::command::crf_search::decision::SearchTransition;
use ab_av1::command::crf_search::{
    CrfSearch, CrfSearchConfig, MaxEncodedPercent, QualityConverter, Sample, ScoreOptions,
    SearchSettings,
};
use ab_av1::command::sample_encode::result::Output;
use ab_av1::command::sample_encode::{Progress, Status, Work};
use ab_av1::command::worker::connection::{
    announce_frame, expect_reply, join_frame, step_of, Connection, LoopEvent, LoopStep,
    ReplyMessage, ReplyStep, WorkerLoop,
};
use ab_av1::command::worker::frames::{
    decode_binary_transfer_chunk, decode_binary_worker_push, decode_phoenix_binary_frame,
    FrameError, TransferChunk, TRANSFER_CHUNK_HEADER_LEN,
};
use ab_av1::command::worker::heartbeat::{find_disk, heartbeat_payload, DiskInfo, Measured};
use ab_av1::command::worker::job::{
    accept_resend, build_worker_job, expected_input, worker_job_input_dir, worker_job_input_path,
    worker_job_phase, worker_source_file_name, DirEntry, InputDelivery, WorkerJob, WorkerJobPhase,
};
use ab_av1::command::worker::pending::{
    check_download, download_worker_input, http_transfer_progress_payload, transfer_fraction,
    DownloadStart, PendingError, PendingJob, PendingJobOutcome, WaitError,
    WaitFrame, WaitStep,
};
use ab_av1::command::worker::report::{JobMessage, JobReporting, JobStep, ReportUpdate};
use ab_av1::command::worker::{
    connect_failed, connect_refused, format_bytes_per_second, work_status_label,
    worker_websocket_url, ReconnectBackoff, WorkerConfig, WorkerRuntime, WorkerSession,
};
use ab_av1::command::worker_protocol::{
    crf_search_topic, decode_reply, decode_worker_push, push_of, refusal_message, reply_of,
    route_reply, CancelPayload, Capabilities, ClientEvent, ClientFrame, ClientPayload,
    ErrorReplyPayload, FrameText, JobAssignedPayload,
    NoWorkPayload, PullWorkPayload, PushText, ReplyBody, ReplyRoute, ReplyText, ServerFrame,
    ServerPushFrame, ServerReply, TransferAuth, TransferSpec, TransferStage, TransferStartedPayload,
    WorkStatus,
};
use ab_av1::command::worker_transfer::ChunkReceiverError;
use ab_av1::duration::Duration;
use ab_av1::float::{Double, Single};
use serde_json::Value;

fn single(x: f32) -> Single {
    Single::from_bits(x.to_bits())
}

fn double(x: f64) -> Double {
    Double::from_bits(x.to_bits())
}

fn strings(list: &[&str]) -> Vec<String> {
    list.iter().map(|s| s.to_string()).collect()
}

fn assignment(job_id: &str, status: WorkStatus, size_bytes: u64) -> JobAssignedPayload {
    JobAssignedPayload {
        status,
        job_id: job_id.into(),
        video_id: 123,
        source_name: "movie.mkv".into(),
        size_bytes,
        chunk_size_bytes: 256,
        target_vmaf: single(96.5),
        transfer: None,
        crf_search_args: strings(&[
            "crf-search",
            "--input",
            "/server/movie.mkv",
            "--min-vmaf",
            "96.5",
        ]),
    }
}

fn job(size_bytes: u64) -> WorkerJob {
    WorkerJob::new(
        assignment("job-123", WorkStatus::JobAssigned, size_bytes),
        "/work/job-123".into(),
        "/work/job-123/movie.mkv".into(),
    )
}

fn transfer() -> TransferSpec {
    TransferSpec {
        url: "http://server/input".into(),
        auth: TransferAuth {
            scheme: "Bearer".into(),
            header: "authorization".into(),
            value: "token".into(),
        },
    }
}

fn output(vmaf: f32) -> Output {
    Output {
        vmaf_score: Some(single(vmaf)),
        xpsnr_score: None,
        predicted_encode_size: 100,
        encode_percent: double(50.0),
        predicted_encode_time: Duration::from_secs(1),
        from_cache: false,
    }
}

fn config() -> WorkerConfig {
    WorkerConfig {
        connect: "http://127.0.0.1:4000".into(),
        token: "token".into(),
        worker_id: "abav1-dev".into(),
        version: "0.11.4".into(),
        protocol_version: 1,
        once: false,
        local_path: None,
    }
}

fn raw_chunk(index: u64, total: u64, sent: u64, size: u64, bytes: &[u8]) -> TransferChunk {
    TransferChunk {
        transfer_id: "job-123".into(),
        video_id: 123,
        chunk_index: index,
        total_chunks: total,
        bytes_sent: sent,
        total_bytes: size,
        crc32: u64::from(crc32fast::hash(bytes)),
        bytes: bytes.to_vec(),
    }
}

fn binary_transfer_chunk_frame(
    transfer_id: &str,
    video_id: u64,
    chunk_index: u64,
    total_chunks: u64,
    bytes_sent: u64,
    total_bytes: u64,
    data: &[u8],
) -> Vec<u8> {
    let mut frame = Vec::with_capacity(TRANSFER_CHUNK_HEADER_LEN + transfer_id.len() + data.len());
    frame.extend_from_slice(b"RAV1");
    frame.push(1);
    frame.push(1);
    frame.extend_from_slice(&(transfer_id.len() as u16).to_be_bytes());
    frame.extend_from_slice(&video_id.to_be_bytes());
    frame.extend_from_slice(&chunk_index.to_be_bytes());
    frame.extend_from_slice(&total_chunks.to_be_bytes());
    frame.extend_from_slice(&bytes_sent.to_be_bytes());
    frame.extend_from_slice(&total_bytes.to_be_bytes());
    frame.extend_from_slice(&crc32fast::hash(data).to_be_bytes());
    frame.extend_from_slice(transfer_id.as_bytes());
    frame.extend_from_slice(data);
    frame
}

fn phoenix_binary_frame(reference: &str, topic: &str, event: &str, payload: &[u8]) -> Vec<u8> {
    let mut frame = vec![0, reference.len() as u8, topic.len() as u8, event.len() as u8];
    frame.extend_from_slice(reference.as_bytes());
    frame.extend_from_slice(topic.as_bytes());
    frame.extend_from_slice(event.as_bytes());
    frame.extend_from_slice(payload);
    frame
}

#[test]
fn worker_websocket_url_rewrites_http_scheme() {
    let url = worker_websocket_url("http://127.0.0.1:4000/", "secret").expect("url");

    assert_eq!(
        url,
        "ws://127.0.0.1:4000/workers/socket/websocket?token=secret&vsn=2.0.0"
    );
}

#[test]
fn worker_websocket_url_knows_four_schemes() {
    for (base, start) in [
        ("https://host//", "wss://host/workers/"),
        ("ws://host", "ws://host/workers/"),
        ("wss://host", "wss://host/workers/"),
    ] {
        let url = worker_websocket_url(base, "t").expect("url");
        assert!(url.starts_with(start), "{url}");
    }
    assert_eq!(
        worker_websocket_url("ftp://host/", "t"),
        Err("unsupported websocket base URL: ftp://host".into())
    );
}

#[test]
fn worker_session_joins_announces_and_requests_work() {
    let join = join_frame();
    assert_eq!(join.0, "1");
    assert_eq!((join.1.as_str(), join.2.as_str(), join.3.as_str()), ("1", crf_search_topic(), "phx_join"));
    let announce = announce_frame(&config());
    assert_eq!(announce.0, "1");
    assert_eq!((announce.1.as_str(), announce.3.as_str()), ("2", "announce"));
    match announce.4 {
        ClientPayload::Announce(p) => {
            assert_eq!(p.worker_id, "abav1-dev");
            assert_eq!(p.protocol_version, 1);
            assert_eq!(p.version, "0.11.4");
            assert_eq!(p.capabilities, Capabilities { crf_search: true });
        }
        other => panic!("{other:?}"),
    }
    let mut connection = Connection::establish("worker-123".into(), true, 1).expect("accepted");
    let (reference, pull) =
        connection.next_frame(ClientEvent::PullWork(PullWorkPayload::default()));
    assert_eq!(reference, 3);
    assert_eq!(pull.0, "1");
    assert_eq!((pull.1.as_str(), pull.3.as_str()), ("3", "pull_work"));
    assert_eq!(connection.next_ref, 4);

    let session = WorkerSession::new(
        connection.assigned_worker_id,
        connection.negotiated_protocol_version,
        ServerReply::NoWork(NoWorkPayload::from_status(None)),
    );
    assert_eq!(
        session,
        WorkerSession {
            assigned_worker_id: "worker-123".into(),
            negotiated_protocol_version: 1,
            work_status: "no_work".into(),
            assigned_job: None,
        }
    );
    assert_eq!(
        session.summary(),
        "connected worker worker-123 via 1 and received no_work"
    );
}

#[test]
fn a_refused_announcement_is_an_error() {
    assert_eq!(
        Connection::establish("w".into(), false, 1),
        Err("worker announcement was not accepted")
    );
}

#[test]
fn worker_session_exposes_assigned_job_payload() {
    let session = WorkerSession::new(
        "worker-123".into(),
        1,
        ServerReply::JobAssigned(assignment("job-123", WorkStatus::JobAssigned, 1024)),
    );

    assert_eq!(session.work_status, "job_assigned (job_id=job-123)");
    let job = session.assigned_job.expect("assigned job");
    assert_eq!(session.assigned_worker_id, "worker-123");
    assert_eq!(session.negotiated_protocol_version, 1);
    assert_eq!(job.job_id, "job-123");
    assert_eq!(job.video_id, 123);
    assert_eq!(job.source_name, "movie.mkv");
    assert_eq!(job.size_bytes, 1024);
    assert_eq!(job.chunk_size_bytes, 256);
    assert_eq!(job.target_vmaf, single(96.5));
}

#[test]
fn worker_stays_connected_and_pulls_work_again_after_no_work() {
    let mut worker = WorkerLoop::new(0, Some(2));
    assert_eq!(worker.step, LoopStep::Pull);
    assert_eq!(worker.on_event(LoopEvent::Pulled { assigned: false }), LoopStep::Sleep);
    assert_eq!(worker.on_event(LoopEvent::Slept), LoopStep::Pull);
    assert_eq!(worker.on_event(LoopEvent::Pulled { assigned: false }), LoopStep::Stop);
    assert_eq!(worker.completed_pulls, 2);
}

#[test]
fn worker_reconnects_after_disconnect_and_continues_pulling_work() {
    let mut first = WorkerLoop::new(0, Some(2));
    first.on_event(LoopEvent::Pulled { assigned: false });
    // the connection is lost: the next one goes on counting
    let mut second = WorkerLoop::new(first.completed_pulls, first.max_pulls);
    assert_eq!(second.on_event(LoopEvent::Pulled { assigned: false }), LoopStep::Stop);
}

#[test]
fn worker_requests_input_resend_when_resumed_job_lacks_local_file() {
    let job = WorkerJob::new(
        assignment("missing-input-resend", WorkStatus::JobInProgress, 1024),
        "/work".into(),
        "/work/movie.mkv".into(),
    );
    let mut worker = WorkerLoop::new(0, None);
    worker.on_event(LoopEvent::Pulled { assigned: true });
    let phase = worker_job_phase(&job, false, false).expect("phase");
    assert_eq!(worker.on_event(LoopEvent::Phase(phase)), LoopStep::RequestResend);
    let failure = job.missing_input_report();
    assert_eq!(failure.job_id, "missing-input-resend");
    assert_eq!(failure.stage.as_str(), "receive_chunk");
    assert!(failure.retriable);

    let again = assignment("missing-input-resend", WorkStatus::JobAssigned, 1024);
    let accepted = accept_resend("missing-input-resend", ServerReply::JobAssigned(again));
    assert_eq!(accepted.expect("resend").job_id, "missing-input-resend");
    assert_eq!(worker.on_event(LoopEvent::Resent), LoopStep::WaitForInput);
    assert_eq!(
        worker.on_event(LoopEvent::Outcome(PendingJobOutcome::Waiting)),
        LoopStep::WaitForInput
    );
    assert_eq!(
        worker.on_event(LoopEvent::Outcome(PendingJobOutcome::Ready)),
        LoopStep::RunJob
    );
    assert_eq!(worker.on_event(LoopEvent::JobDone), LoopStep::Pull);
}

#[test]
fn a_resend_for_another_job_is_refused() {
    let refused = |reply| accept_resend("a", reply).expect_err("refused");
    assert!(refused(ServerReply::NoWork(NoWorkPayload::from_status(None))).contains("no_work"));
    assert!(refused(ServerReply::JobAssigned(assignment("b", WorkStatus::JobAssigned, 1)))
        .contains("reassigned job b"));
    assert!(refused(ServerReply::JobAssigned(assignment("a", WorkStatus::JobInProgress, 1)))
        .contains("job_in_progress"));
}

#[test]
fn worker_reports_supported_versions_on_protocol_mismatch() {
    let error = ErrorReplyPayload::new("unsupported_protocol_version")
        .with_supported_protocol_versions(vec![1]);
    let message = refusal_message("announce", &error);
    assert!(message.contains("unsupported_protocol_version"), "{message}");
    assert!(message.contains("[1]"), "{message}");
    let error = ErrorReplyPayload::new("x").with_supported_protocol_versions(vec![1, 20]);
    assert_eq!(
        refusal_message("announce", &error),
        "announce failed: x (supported_protocol_versions=[1, 20])"
    );
    assert_eq!(
        refusal_message("pull_work", &ErrorReplyPayload::new("x")),
        "pull_work failed: x"
    );
}

#[test]
fn worker_ignores_cancel_push_while_waiting_for_pull_work_reply() {
    let push = r#"[null, null, "workers:crf_search", "cancel", {"job_id": "job-123", "reason": "shutdown"}]"#;
    assert_eq!(
        expect_reply(ReplyMessage::Text(push.into()), "3", "pull_work"),
        ReplyStep::Continue
    );
    let reply = r#"[null, "3", "workers:crf_search", "phx_reply", {"status":"ok","response":{"status":"no_work"}}]"#;
    match expect_reply(ReplyMessage::Text(reply.into()), "3", "pull_work") {
        ReplyStep::Body(body) => {
            let body: Value = serde_json::from_str(&body).expect("body");
            assert_eq!(body["response"]["status"], Value::from("no_work"));
        }
        other => panic!("{other:?}"),
    }
    assert_eq!(expect_reply(ReplyMessage::Other, "3", "pull_work"), ReplyStep::Continue);
    assert!(matches!(expect_reply(ReplyMessage::Ended, "3", "pull_work"), ReplyStep::Fail(_)));
    assert!(matches!(
        expect_reply(ReplyMessage::Close("bye".into()), "3", "pull_work"),
        ReplyStep::Fail(_)
    ));
}

#[test]
fn worker_formats_assigned_job_status_with_job_id() {
    let status = work_status_label(&ServerReply::JobAssigned(assignment(
        "job-123",
        WorkStatus::JobAssigned,
        1024,
    )));

    assert_eq!(status, "job_assigned (job_id=job-123)");
}

#[test]
fn worker_job_lowering_uses_the_arguments_of_the_server() {
    let mut job = job(1024);
    let expected = ["crf-search", "--input", "/server/movie.mkv", "--min-vmaf", "96.5"];
    assert_eq!(job.crf_search_argv().expect("argv"), expected);
    job.assignment.crf_search_args.insert(0, "ab-av1".into());
    assert_eq!(job.crf_search_argv().expect("argv"), expected);
    job.assignment.crf_search_args = strings(&["--min-vmaf", "95"]);
    assert_eq!(
        job.crf_search_argv().expect("argv"),
        ["crf-search", "--min-vmaf", "95"]
    );
    job.assignment.crf_search_args.clear();
    assert!(job
        .crf_search_argv()
        .expect_err("no arguments")
        .contains("job-123 missing crf_search_args"));
}

#[test]
fn build_worker_job_uses_local_path_only_when_requested() {
    let local_path = Some("/videos/movie.mkv".to_string());
    let job = build_worker_job(
        assignment("job-123", WorkStatus::JobAssigned, 1024),
        "/work/job-123".into(),
        &local_path,
        false,
        &[],
    )
    .expect("worker job");

    assert_eq!(job.input_path(), "/videos/movie.mkv");
}

#[test]
fn build_worker_job_uses_source_basename_for_worker_file_lookup() {
    let job_dir = worker_job_input_dir("/work", "job-path-source");
    let mut assigned = assignment("job-path-source", WorkStatus::JobInProgress, 4);
    assigned.source_name = "/server/library/movie.mkv".into();
    let expected = expected_input(&job_dir, &assigned).expect("expected input");

    let job = build_worker_job(assigned, job_dir, &None, true, &[]).expect("worker job");

    assert_eq!(job.input_path(), expected);
    assert!(expected.ends_with("/movie.mkv"), "{expected}");
}

#[test]
fn a_source_without_a_file_name_is_refused() {
    let mut assigned = assignment("job-1", WorkStatus::JobAssigned, 4);
    assert_eq!(worker_source_file_name(&assigned).as_deref(), Ok("movie.mkv"));
    assigned.source_name = "..".into();
    assigned.crf_search_args = strings(&["--input", "/server/other.mkv"]);
    assert_eq!(worker_source_file_name(&assigned).as_deref(), Ok("other.mkv"));
    assigned.crf_search_args.clear();
    assert!(worker_source_file_name(&assigned).is_err());
}

#[test]
fn another_file_of_the_same_size_is_taken() {
    let entries = [
        DirEntry { path: "/w/a.part".into(), is_file: true, len: 3 },
        DirEntry { path: "/w/dir".into(), is_file: false, len: 4 },
        DirEntry { path: "/w/b.mkv".into(), is_file: true, len: 4 },
    ];
    assert_eq!(worker_job_input_path("/w/movie.mkv", false, &entries, 4), "/w/b.mkv");
    assert_eq!(worker_job_input_path("/w/movie.mkv", true, &entries, 4), "/w/movie.mkv");
    assert_eq!(worker_job_input_path("/w/movie.mkv", false, &entries, 5), "/w/movie.mkv");
}

/// The search that the arguments of a job ask for, on the file that the worker
/// has of it.
fn search_config(job: &WorkerJob) -> CrfSearchConfig {
    let argv = job.crf_search_argv().expect("argv");
    assert_eq!(argv[0], "crf-search");
    let given = |flag: &str| {
        let at = argv.iter().position(|arg| arg == flag)?;
        argv.get(at + 1)
    };
    assert_eq!(given("--input").map(String::as_str), Some("/server/movie.mkv"));
    let min_vmaf: f32 = given("--min-vmaf").expect("score").parse().expect("number");
    CrfSearchConfig {
        args: Encode {
            encoder: Encoder::from_str("libsvtav1"),
            input: job.input_path().to_string(),
            vfilter: None,
            pix_format: None,
            preset: None,
            keyint: None,
            scd: None,
            svt_args: vec![],
            enc_args: vec![],
            enc_input_args: vec![],
        },
        min_vmaf: Some(single(min_vmaf)),
        min_xpsnr: None,
        max_encoded_percent: MaxEncodedPercent::new(double(80.0)).unwrap(),
        min_crf: None,
        max_crf: None,
        crf_increment: None,
        high_crf_means_hq: None,
        thorough: false,
        cache: true,
        sample: SampleArgs {
            samples: None,
            sample_every: Duration::from_secs(720),
            min_samples: None,
            sample_duration: Duration::from_secs(20),
            keep: false,
            temp_dir: None,
            extension: None,
        },
        scoring: CrfSearchConfig::scoring_for(
            None,
            ScoreOptions {
                vmaf: Vmaf::default(),
                score: ScoreArgs { reference_vfilter: None },
                xpsnr: Xpsnr::default(),
            },
        ),
    }
}

/// Runs a search whose attempts all come out as `enc`.
fn run_search(config: &CrfSearchConfig, enc: Output) -> Sample {
    let value = |x: Single| f32::from_bits(x.bits);
    let setup = config.setup().expect("setup");
    let increment = value(setup.crf_increment.get());
    let steps = |crf: Single| (f64::from(value(crf)) / f64::from(increment)).round() as i64;
    let conv = QualityConverter::new(setup.crf_increment, setup.high_crf_means_hq);
    let (min_q, max_q) = conv.min_max_q(steps(setup.min_crf), steps(setup.max_crf));
    let mut search = CrfSearch::new(SearchSettings {
        min_score: setup.min_score,
        thorough: config.thorough,
        cut_on_iter2: true,
        min_q,
        max_q,
        use_xpsnr: setup.use_xpsnr,
        max_encoded_percent: config.max_encoded_percent,
    });
    let min_score = value(setup.min_score);
    assert_eq!(min_score, 96.5);
    loop {
        let crf = (conv.crf_steps(search.q) as f64 * f64::from(increment)) as f32;
        let tolerance = (increment.min(1.0) * 2_f32.powi(search.run() as i32 - 1) * 0.1).max(0.1);
        let transition = search.on_output(
            single(crf),
            enc,
            single(min_score + tolerance),
            single(min_score + 0.11),
        );
        match transition.expect("a good attempt") {
            SearchTransition::Continue { .. } => {}
            SearchTransition::Interpolate { worse, better } => {
                search.interpolated((worse.q + better.q) / 2);
            }
            SearchTransition::Cut { from_q, to_q } => {
                search.cut((from_q as f32 * 0.4 + to_q as f32 * 0.6).round() as i64);
            }
            SearchTransition::Done(best) => return best,
            SearchTransition::RunResultThenDone { done, .. } => return done,
        }
    }
}

#[test]
fn worker_job_runs_crf_search_from_fake_probe() {
    let job = job(1024);
    let config = search_config(&job);
    assert_eq!(config.args.input, "/work/job-123/movie.mkv");
    let best = run_search(&config, output(97.0));

    assert!(f32::from_bits(best.crf.bits).is_finite());
    assert_eq!(best.enc.vmaf_score, Some(single(97.0)));
    assert_eq!(best.enc.encode_percent, double(50.0));
    // whatever the crf, the score suffices: the greatest is the best
    assert_eq!(best.crf, config.setup().expect("setup").max_crf);
    let result = job.crf_result_payload(&best, double(1.0), true);
    assert_eq!(result.job_id, "job-123");
    assert_eq!(result.video_id, 123);
    assert_eq!(result.source_name, "movie.mkv");
    assert_eq!(result.crf, best.crf);
    assert_eq!(result.vmaf_score, Some(single(97.0)));
    assert_eq!(result.xpsnr_score, None);
    assert_eq!(result.predicted_encode_size, 100);
    assert_eq!(result.encode_percent, double(50.0));
    assert_eq!(result.predicted_encode_time_secs, double(1.0));
    assert!(!result.from_cache);
    assert!(result.chosen);
}

#[test]
fn pending_job_finalizes_chunk_to_worker_input_and_reports_progress() {
    let mut pending = PendingJob::waiting(job(4));
    let mut written = Vec::new();
    pending
        .apply_raw_chunk(raw_chunk(0, 1, 4, 4, b"data"), 1, |path: &str, bytes: &[u8]| {
            written.push((path.to_string(), bytes.to_vec()));
            Ok(())
        })
        .expect("chunk");
    assert_eq!(written.len(), 1);
    assert_eq!(written[0].1, b"data");
    assert!(pending.is_complete());
    assert_eq!(pending.reported_bytes(), 4);

    let progress = pending.transfer_progress_payload(0, 1, 1, double(100.0));
    assert_eq!(progress.received_bytes, 4);
    assert_eq!(progress.expected_bytes, Some(4));
    assert_eq!(progress.percent, double(100.0));
    assert_eq!(progress.chunk_index, 0);
    assert_eq!(progress.total_chunks, 1);

    let received = pending.finish().expect("finish");
    assert_eq!(received.temp_path, written[0].0);
    assert_eq!(received.place(false).as_deref(), Ok("/work/job-123/movie.mkv"));
}

#[test]
fn chunks_of_other_transfers_are_refused() {
    let apply = |chunk: TransferChunk| {
        PendingJob::waiting(job(4)).apply_raw_chunk(chunk, 1, |_: &str, _: &[u8]| Ok(()))
    };
    let mut other = raw_chunk(0, 1, 4, 4, b"data");
    other.transfer_id = "job-9".into();
    assert_eq!(
        apply(other),
        Err(PendingError::Job { expected: "job-123".into(), got: "job-9".into() })
    );
    let mut other = raw_chunk(0, 1, 4, 4, b"data");
    other.video_id = 9;
    assert_eq!(apply(other), Err(PendingError::Video { expected: 123, got: 9 }));
    assert_eq!(
        apply(raw_chunk(0, 1, 4, 5, b"data")),
        Err(PendingError::Size { expected: 4, got: 5 })
    );
    assert!(matches!(
        apply(raw_chunk(0, 1, 3, 4, b"data")),
        Err(PendingError::Cumulative { .. })
    ));
    let mut corrupt = raw_chunk(0, 1, 4, 4, b"data");
    corrupt.crc32 += 1;
    assert_eq!(
        apply(corrupt),
        Err(PendingError::Receiver(ChunkReceiverError::CorruptChunk { index: 0 }))
    );
    assert_eq!(
        PendingJob::waiting(job(4)).finish(),
        Err(PendingError::MissingReceiver)
    );
}

#[test]
fn a_worker_waits_for_its_input() {
    let mut pending = PendingJob::waiting(job(8));
    let take = |pending: &mut PendingJob, frame: WaitFrame| {
        pending.wait_for_pending_job(frame, 1, |_: &str, _: &[u8]| Ok(()))
    };
    assert_eq!(take(&mut pending, WaitFrame::Ping), Ok(WaitStep::SendPong));
    assert_eq!(take(&mut pending, WaitFrame::Pong), Ok(WaitStep::Waiting));
    assert_eq!(take(&mut pending, WaitFrame::Idle), Ok(WaitStep::SendHeartbeat));
    let started = TransferStartedPayload {
        chunk_size_bytes: 4,
        size_bytes: 8,
        source_name: "movie.mkv".into(),
        status: "started".into(),
        total_bytes: 8,
        total_chunks: 2,
        transfer_id: "job-123".into(),
        video_id: 123,
    };
    assert_eq!(take(&mut pending, WaitFrame::Started(started)), Ok(WaitStep::Waiting));
    let first = binary_transfer_chunk_frame("job-123", 123, 0, 2, 4, 8, b"data");
    let push = phoenix_binary_frame("1", crf_search_topic(), "transfer_chunk", &first);
    assert_eq!(
        take(&mut pending, WaitFrame::Binary(push)),
        Ok(WaitStep::Progress { chunk_index: 0, total_chunks: 2, complete: false })
    );
    let second = binary_transfer_chunk_frame("job-123", 123, 1, 2, 8, 8, b"more");
    let push = phoenix_binary_frame("1", crf_search_topic(), "transfer_chunk", &second);
    assert_eq!(
        take(&mut pending, WaitFrame::Binary(push)),
        Ok(WaitStep::Progress { chunk_index: 1, total_chunks: 2, complete: true })
    );
    assert!(pending.is_complete());
    assert!(take(&mut pending, WaitFrame::Ended).is_err());
    assert!(take(&mut pending, WaitFrame::Failed).is_err());
    assert!(take(&mut pending, WaitFrame::Close("bye".into()))
        .expect_err("closed")
        .message()
        .contains("bye"));
    let cancel = |id: &str| CancelPayload { job_id: id.into(), reason: "stop".into() };
    assert!(matches!(
        take(&mut pending, WaitFrame::Cancel(cancel("job-123"))),
        Ok(WaitStep::Canceled(_))
    ));
    assert_eq!(
        take(&mut pending, WaitFrame::Cancel(cancel("job-9"))),
        Ok(WaitStep::Waiting)
    );
}

#[test]
fn only_parts_that_are_taken_are_written() {
    let mut pending = PendingJob::waiting(job(8));
    let mut written: Vec<(String, Vec<u8>)> = Vec::new();
    let mut take = |pending: &mut PendingJob, chunk: Vec<u8>| {
        let push = phoenix_binary_frame("1", crf_search_topic(), "transfer_chunk", &chunk);
        let write = |path: &str, bytes: &[u8]| {
            written.push((path.to_string(), bytes.to_vec()));
            Ok(())
        };
        pending
            .wait_for_pending_job(WaitFrame::Binary(push), 1, write)
            .is_ok()
    };
    let first = binary_transfer_chunk_frame("job-123", 123, 0, 2, 4, 8, b"data");
    let mut corrupt = first.clone();
    *corrupt.last_mut().expect("bytes") ^= 1;
    assert!(!take(&mut pending, corrupt));
    assert!(take(&mut pending, first.clone()));
    assert!(!take(&mut pending, first));
    let foreign = binary_transfer_chunk_frame("job-9", 123, 1, 2, 8, 8, b"else");
    assert!(take(&mut pending, foreign));
    assert!(!take(
        &mut pending,
        binary_transfer_chunk_frame("job-123", 123, 2, 3, 8, 8, b"late")
    ));
    assert!(take(
        &mut pending,
        binary_transfer_chunk_frame("job-123", 123, 1, 2, 8, 8, b"more")
    ));
    let file = pending.finish().expect("complete").temp_path;
    assert_eq!(written, [(file.clone(), b"data".to_vec()), (file, b"more".to_vec())]);
}

#[test]
fn a_waiting_worker_refuses_chunks_that_do_not_fit() {
    let mut pending = PendingJob::waiting(job(8));
    let take = |pending: &mut PendingJob, chunk: Vec<u8>| {
        let push = phoenix_binary_frame("1", crf_search_topic(), "transfer_chunk", &chunk);
        pending.wait_for_pending_job(WaitFrame::Binary(push), 1, |_: &str, _: &[u8]| Ok(()))
    };
    let first = binary_transfer_chunk_frame("job-123", 123, 0, 2, 4, 8, b"data");
    let mut corrupt = first.clone();
    *corrupt.last_mut().expect("bytes") ^= 1;
    let err = take(&mut pending, corrupt).expect_err("other bytes than those summed");
    assert!(matches!(err, WaitError::Pending(PendingError::Receiver(_))), "{err:?}");
    assert!(!pending.is_complete());
    assert!(take(&mut pending, first.clone()).is_ok());
    let again = binary_transfer_chunk_frame("job-123", 123, 0, 2, 8, 8, b"data");
    let err = take(&mut pending, again).expect_err("a chunk that was there");
    assert!(matches!(err, WaitError::Pending(PendingError::Receiver(_))), "{err:?}");
    let err = take(&mut pending, first).expect_err("bytes that were counted");
    assert!(matches!(err, WaitError::Pending(PendingError::Cumulative { .. })), "{err:?}");
    let foreign = binary_transfer_chunk_frame("job-9", 123, 1, 2, 8, 8, b"more");
    assert_eq!(take(&mut pending, foreign), Ok(WaitStep::Waiting));
    let other = binary_transfer_chunk_frame("job-123", 9, 1, 2, 8, 8, b"more");
    let err = take(&mut pending, other).expect_err("another video");
    assert!(matches!(err, WaitError::Pending(PendingError::Video { .. })), "{err:?}");
    let last = binary_transfer_chunk_frame("job-123", 123, 1, 2, 8, 8, b"more");
    assert_eq!(
        take(&mut pending, last),
        Ok(WaitStep::Progress { chunk_index: 1, total_chunks: 2, complete: true })
    );
    // bytes that cannot be written
    let mut unwritten = PendingJob::waiting(job(4));
    let chunk = binary_transfer_chunk_frame("job-123", 123, 0, 1, 4, 4, b"data");
    let push = phoenix_binary_frame("1", crf_search_topic(), "transfer_chunk", &chunk);
    let err = unwritten
        .wait_for_pending_job(WaitFrame::Binary(push), 1, |_: &str, _: &[u8]| {
            Err("disk full".to_string())
        })
        .expect_err("not written");
    assert!(err.message().contains("disk full"), "{}", err.message());
    assert!(!unwritten.is_complete());
}

#[test]
fn completed_worker_input_cleanup_respects_local_path() {
    let job = job(4);
    assert_eq!(job.input_to_remove(&Some("/work/job-123/movie.mkv".into())), None);
    assert_eq!(job.input_to_remove(&None), Some("/work/job-123/movie.mkv"));
}

#[test]
fn worker_job_phase_selects_input_delivery_and_resume_behavior() {
    let make_job = |status, transfer| {
        let mut assigned = assignment("phase-job", status, 4);
        assigned.transfer = transfer;
        WorkerJob::new(assigned, "/work".into(), "/work/movie.mkv".into())
    };

    assert_eq!(
        worker_job_phase(&make_job(WorkStatus::JobAssigned, None), false, false),
        Ok(WorkerJobPhase::AwaitingInput(InputDelivery::Websocket))
    );
    assert_eq!(
        worker_job_phase(&make_job(WorkStatus::JobAssigned, Some(transfer())), false, false),
        Ok(WorkerJobPhase::AwaitingInput(InputDelivery::Http))
    );
    assert_eq!(
        worker_job_phase(&make_job(WorkStatus::JobInProgress, None), false, false),
        Ok(WorkerJobPhase::AwaitingInput(InputDelivery::Resend))
    );
    assert_eq!(
        worker_job_phase(&make_job(WorkStatus::JobAssigned, None), false, true),
        Ok(WorkerJobPhase::InputReady)
    );
    assert_eq!(
        worker_job_phase(&make_job(WorkStatus::JobInProgress, None), false, true),
        Ok(WorkerJobPhase::CrfSearching)
    );
    assert!(worker_job_phase(&make_job(WorkStatus::JobAssigned, None), true, false).is_err());
}

#[test]
fn crf_updates_are_retained_for_reconnect_reporting() {
    let job = job(4);
    let mut reporting = JobReporting::new();
    reporting.lost();
    let status = Status {
        work: Work::Encode,
        fps: single(24.0),
        progress: Progress { part: 1, whole: 2 },
        sample: 2,
        samples: 4,
        full_pass: false,
    };
    let sent = reporting.on_update(
        &job,
        ReportUpdate::Status { crf: single(31.0), status, percent: single(50.0) },
    );
    assert_eq!(sent, None);
    let progress = reporting.state.crf_progress.as_ref().expect("stored progress");
    assert_eq!(progress.video_id, 123);
    assert_eq!(progress.percent, single(50.0));
    assert_eq!(progress.fps, single(24.0));
    assert_eq!(progress.crf, single(31.0));
    assert_eq!(progress.sample_num, 2);
    assert_eq!(progress.total_samples, 4);

    let sample = Sample { enc: output(96.0), crf: single(31.0), q: -31 };
    let sent = reporting.on_update(&job, ReportUpdate::Done { sample, time_secs: double(1.0) });
    assert_eq!(sent, None);
    assert_eq!(reporting.state.crf_results.len(), 1);
    assert!(reporting.state.crf_results[0].chosen);
    let replay = reporting.state.replay();
    assert!(matches!(replay.last(), Some(ClientEvent::CrfSearchResult(r)) if r.chosen));
    assert_eq!(reporting.reconnected(true), Some(sample));
}

#[test]
fn reconnect_backoff_grows_and_caps() {
    let mut backoff =
        ReconnectBackoff::new(Duration::from_millis(100), Duration::from_millis(1_000));

    assert_eq!(backoff.next_delay(), Duration::from_millis(100));
    assert_eq!(backoff.next_delay(), Duration::from_millis(200));
    assert_eq!(backoff.next_delay(), Duration::from_millis(400));
    assert_eq!(backoff.next_delay(), Duration::from_millis(800));
    assert_eq!(backoff.next_delay(), Duration::from_millis(1_000));
    assert_eq!(backoff.next_delay(), Duration::from_millis(1_000));
}

#[test]
fn reconnect_backoff_resets_after_success() {
    let mut backoff =
        ReconnectBackoff::new(Duration::from_millis(100), Duration::from_millis(1_000));

    assert_eq!(backoff.next_delay(), Duration::from_millis(100));
    assert_eq!(backoff.next_delay(), Duration::from_millis(200));

    backoff.reset();

    assert_eq!(backoff.next_delay(), Duration::from_millis(100));
}

#[test]
fn binary_transfer_chunk_decodes_rav1_frame() {
    let data = b"hello worker bytes".to_vec();
    let frame = binary_transfer_chunk_frame(
        "job-123",
        123,
        7,
        10,
        8 * 1024 + data.len() as u64,
        64 * 1024,
        &data,
    );

    let chunk = decode_binary_transfer_chunk(&frame).expect("decode binary transfer chunk");

    assert_eq!(chunk.transfer_id, "job-123");
    assert_eq!(chunk.video_id, 123);
    assert_eq!(chunk.chunk_index, 7);
    assert_eq!(chunk.total_chunks, 10);
    assert_eq!(chunk.bytes_sent, 8 * 1024 + data.len() as u64);
    assert_eq!(chunk.total_bytes, 64 * 1024);
    assert_eq!(chunk.crc32, crc32fast::hash(&data) as u64);
    assert_eq!(chunk.bytes, data);
}

#[test]
fn binary_transfer_chunk_rejects_bad_magic() {
    let mut frame = binary_transfer_chunk_frame("job-123", 123, 0, 1, 5, 5, b"hello");
    frame[0..4].copy_from_slice(b"NOPE");

    assert!(decode_binary_transfer_chunk(&frame).is_err());
    assert!(matches!(
        decode_binary_transfer_chunk(&frame),
        Err(FrameError::BadMagic { .. })
    ));
}

#[test]
fn malformed_transfer_chunks_are_told_apart() {
    let good = binary_transfer_chunk_frame("job-123", 123, 0, 1, 5, 5, b"hello");
    assert_eq!(
        decode_binary_transfer_chunk(&good[..10]),
        Err(FrameError::ChunkTooShort { len: 10 })
    );
    let mut version = good.clone();
    version[4] = 9;
    assert_eq!(
        decode_binary_transfer_chunk(&version),
        Err(FrameError::UnsupportedVersion { version: 9 })
    );
    let mut kind = good.clone();
    kind[5] = 9;
    assert_eq!(
        decode_binary_transfer_chunk(&kind),
        Err(FrameError::UnsupportedType { kind: 9 })
    );
    assert!(matches!(
        decode_binary_transfer_chunk(&good[..TRANSFER_CHUNK_HEADER_LEN + 3]),
        Err(FrameError::IdTruncated { .. })
    ));
    let mut id = good.clone();
    id[TRANSFER_CHUNK_HEADER_LEN] = 0xff;
    assert_eq!(decode_binary_transfer_chunk(&id), Err(FrameError::IdNotUtf8));
}

#[test]
fn binary_worker_push_decodes_phoenix_enveloped_transfer_chunk() {
    let data = b"hello worker bytes".to_vec();
    let chunk = binary_transfer_chunk_frame(
        "job-123",
        123,
        7,
        10,
        8 * 1024 + data.len() as u64,
        64 * 1024,
        &data,
    );
    let frame = phoenix_binary_frame("1", "workers:crf_search", "transfer_chunk", &chunk);

    let chunk = decode_binary_worker_push(&frame)
        .expect("decode phoenix binary push")
        .expect("transfer chunk");

    assert_eq!(chunk.transfer_id, "job-123");
    assert_eq!(chunk.video_id, 123);
    assert_eq!(chunk.chunk_index, 7);
    assert_eq!(chunk.bytes, data);
}

#[test]
fn binary_pushes_of_other_topics_are_skipped() {
    let frame = phoenix_binary_frame("1", "other", "transfer_chunk", b"x");
    assert_eq!(decode_binary_worker_push(&frame), Ok(None));
    let frame = phoenix_binary_frame("1", crf_search_topic(), "other", b"x");
    assert_eq!(decode_binary_worker_push(&frame), Ok(None));
    let frame = phoenix_binary_frame("1", "t", "e", b"payload");
    assert_eq!(
        decode_phoenix_binary_frame(&frame),
        Ok(Some(("t", "e", b"payload".as_slice())))
    );
    let mut broken = phoenix_binary_frame("1", "t", "e", b"");
    broken[5] = 0xff;
    assert_eq!(decode_phoenix_binary_frame(&broken), Err(FrameError::TopicNotUtf8));
    broken[5] = b't';
    broken[6] = 0xff;
    assert_eq!(decode_phoenix_binary_frame(&broken), Err(FrameError::EventNotUtf8));
    assert!(matches!(
        decode_phoenix_binary_frame(&broken[..5]),
        Err(FrameError::FrameTruncated { .. })
    ));
}

#[test]
fn server_push_parses_cancel_payload() {
    let text = r#"[null, null, "workers:crf_search", "cancel", {"job_id": "job-123", "reason": "operator requested"}]"#;
    match decode_worker_push(text) {
        PushText::Cancel(payload) => {
            let payload: Value = serde_json::from_str(&payload).expect("payload");
            assert_eq!(payload["job_id"], Value::from("job-123"));
            assert_eq!(payload["reason"], Value::from("operator requested"));
        }
        other => panic!("{other:?}"),
    }
    assert!(matches!(
        decode_worker_push(r#"[null, null, "workers:crf_search", "transfer_started", {}]"#),
        PushText::Started(_)
    ));
    assert_eq!(decode_worker_push("not json"), PushText::Ignore);
    assert_eq!(
        decode_worker_push(r#"[null, null, "elsewhere", "cancel", {}]"#),
        PushText::Ignore
    );
}

#[test]
fn replies_are_matched_by_reference() {
    let text = r#"[null, "7", "workers:crf_search", "phx_reply", {"status":"ok"}]"#;
    assert_eq!(decode_reply(text, "7"), ReplyText::Body(r#"{"status":"ok"}"#.into()));
    assert_eq!(decode_reply(text, "8"), ReplyText::Other);
    assert_eq!(decode_reply("{", "8"), ReplyText::Malformed);
    assert_eq!(route_reply("ok"), ReplyRoute::Granted);
    assert_eq!(route_reply("error"), ReplyRoute::Refused);
    assert_eq!(
        route_reply("odd"),
        ReplyRoute::Unexpected("unexpected phoenix status odd".into())
    );
}

#[test]
fn frames_carry_reference_topic_and_event() {
    let ClientFrame(join_ref, reference, topic, event, payload) =
        ClientFrame::new(9, ClientEvent::PullWork(PullWorkPayload::input_missing()));
    assert_eq!(
        (join_ref.as_str(), reference.as_str(), topic.as_str(), event.as_str()),
        ("1", "9", "workers:crf_search", "pull_work")
    );
    assert_eq!(payload, ClientPayload::PullWork(PullWorkPayload { input_missing: true }));
    assert!(!PullWorkPayload::default().input_missing);
    let reply = ServerFrame::reply(4, ReplyBody::ok(5u8));
    assert_eq!(reply.1, "4");
    assert_eq!(reply.4.status, "ok");
    assert_eq!(ReplyBody::error(1u8).status, "error");
    let push = ServerPushFrame::new("cancel", 1u8);
    assert_eq!(push.3, "cancel");
}

#[test]
fn statuses_and_stages_have_names() {
    for status in [WorkStatus::NoWork, WorkStatus::JobAssigned, WorkStatus::JobInProgress] {
        assert_eq!(WorkStatus::from_name(status.as_str()), Some(status));
    }
    assert_eq!(WorkStatus::from_name("?"), None);
    assert_eq!(TransferStage::ReceiveChunk.as_str(), "receive_chunk");
    assert_eq!(TransferStage::ValidateChunk.as_str(), "validate_chunk");
    assert_eq!(TransferStage::FinalizeTransfer.as_str(), "finalize_transfer");
    assert_eq!(TransferStage::RunCrfSearch.as_str(), "run_crf_search");
}

#[test]
fn downloads_start_and_are_checked() {
    let mut job = job(4);
    assert_eq!(download_worker_input(&job, false), Ok(DownloadStart::NotOffered));
    job.assignment.transfer = Some(transfer());
    assert_eq!(download_worker_input(&job, true), Ok(DownloadStart::Present));
    match download_worker_input(&job, false) {
        Ok(DownloadStart::Fetch { part_path }) => assert_ne!(part_path, job.input_path()),
        other => panic!("{other:?}"),
    }
    assert_eq!(check_download("job-123", 4, 4), Ok(4));
    assert!(check_download("job-123", 3, 4).is_err());
    let progress = http_transfer_progress_payload(&job, 2, 1, double(50.0));
    assert_eq!((progress.received_bytes, progress.expected_bytes), (2, Some(4)));
    assert_eq!(progress.bytes_per_second, 2);
    assert_eq!(transfer_fraction(0, 0), None);
    let half = transfer_fraction(2, 4).expect("fraction");
    assert_eq!((half.part, half.whole), (2, 4));
}

#[test]
fn heartbeats_tell_the_disk_of_the_input() {
    let disks = [
        DiskInfo { mount_point: "/".into(), available_space: 1, total_space: 2 },
        DiskInfo { mount_point: "/data".into(), available_space: 3, total_space: 4 },
    ];
    assert_eq!(find_disk(&disks, "/data/in"), Some(1));
    assert_eq!(find_disk(&disks, "/database/in"), Some(0));
    let measured = Measured {
        cpu_percent: single(12.5),
        memory_rss_bytes: Some(7),
        memory_total_bytes: 8,
    };
    let beat = heartbeat_payload(&measured, &disks, "/data/in", Some(123));
    assert_eq!(beat.cpu_percent, Some(single(12.5)));
    assert_eq!(beat.memory_rss_bytes, Some(7));
    assert_eq!(beat.memory_total_bytes, Some(8));
    assert_eq!(beat.disk_free_bytes, Some(3));
    assert_eq!(beat.disk_total_bytes, Some(4));
    assert_eq!(beat.active_video_id, Some(123));
    let beat = heartbeat_payload(&measured, &[], "/data/in", None);
    assert_eq!((beat.disk_free_bytes, beat.disk_total_bytes), (None, None));
}

#[test]
fn results_survive_a_lost_connection() {
    let job = job(4);
    let mut reporting = JobReporting::new();
    let sample = Sample { enc: output(96.0), crf: single(31.0), q: -31 };
    let sent = reporting.on_update(&job, ReportUpdate::RunResult { sample, time_secs: double(1.0) });
    assert!(matches!(sent, Some(ClientEvent::CrfSearchResult(r)) if !r.chosen));
    assert_eq!(reporting.after_send(false), None);
    assert!(!reporting.connected);
    assert_eq!(reporting.state.crf_results.len(), 1);
    assert_eq!(reporting.reconnected(true), None);
    assert!(reporting.connected);
    let cancel = |id: &str| CancelPayload { job_id: id.into(), reason: "stop".into() };
    assert!(reporting.on_cancel(&job, &cancel("job-123")).is_some());
    assert_eq!(reporting.on_cancel(&job, &cancel("job-9")), None);
}

#[test]
fn messages_during_a_job_are_answered() {
    let job = job(4);
    let reporting = JobReporting::new();
    let on = |message: JobMessage| reporting.on_message(&job, message);
    assert_eq!(on(JobMessage::Ping), JobStep::SendPong);
    assert_eq!(on(JobMessage::Other), JobStep::GoOn);
    assert_eq!(on(JobMessage::Gone), JobStep::Disconnect);
    let cancel = |id: &str| CancelPayload { job_id: id.into(), reason: "stop".into() };
    assert_eq!(on(JobMessage::Cancel(cancel("job-9"))), JobStep::GoOn);
    assert_eq!(
        on(JobMessage::Cancel(cancel("job-123"))),
        JobStep::Cancel("worker job job-123 canceled: stop".into())
    );
}

#[test]
fn failures_name_the_job() {
    let failure = job(4).failure_payload("no good crf", "no good crf: 12");
    assert_eq!(failure.video_id, 123);
    assert_eq!(failure.stage, "crf_search");
    assert_eq!(failure.message, "no good crf");
    assert_eq!(failure.context.job_id, "job-123");
    assert_eq!(failure.context.error_chain, "no good crf: 12");
    assert!(!failure.retriable);
}

#[test]
fn small_texts_of_the_worker() {
    assert_eq!(format_bytes_per_second(3 * 1024 * 1024 + 5), "3 MiB/s");
    assert_eq!(
        connect_refused("ws://x", "403 Forbidden", " no \n"),
        "connect websocket ws://x: HTTP 403 Forbidden no"
    );
    assert_eq!(connect_failed("ws://x", "reset"), "connect websocket ws://x: reset");
    assert_eq!(WorkerRuntime::default().max_pulls, None);
}

fn frame(msg_ref: Option<&str>, topic: &str, event: &str) -> Option<FrameText> {
    Some(FrameText {
        msg_ref: msg_ref.map(Into::into),
        topic: topic.into(),
        event: event.into(),
        payload: "{}".into(),
    })
}

#[test]
fn messages_are_routed_by_topic_event_and_reference() {
    let topic = "workers:crf_search";
    assert_eq!(push_of(frame(None, topic, "cancel")), PushText::Cancel("{}".into()));
    assert_eq!(push_of(frame(None, topic, "transfer_started")), PushText::Started("{}".into()));
    assert_eq!(push_of(frame(None, topic, "phx_reply")), PushText::Ignore);
    assert_eq!(push_of(frame(None, "other", "cancel")), PushText::Ignore);
    assert_eq!(push_of(None), PushText::Ignore);

    let reply = reply_of(frame(Some("3"), topic, "phx_reply"), "3");
    assert_eq!(reply, ReplyText::Body("{}".into()));
    assert_eq!(step_of(reply), ReplyStep::Body("{}".into()));
    let other = reply_of(frame(Some("4"), topic, "phx_reply"), "3");
    assert_eq!(other, ReplyText::Other);
    assert_eq!(step_of(other), ReplyStep::Continue);
    assert_eq!(reply_of(frame(Some("3"), "other", "phx_reply"), "3"), ReplyText::Other);
    assert_eq!(reply_of(frame(None, topic, "phx_reply"), "3"), ReplyText::Other);
    assert_eq!(reply_of(None, "3"), ReplyText::Malformed);
    assert_eq!(step_of(ReplyText::Malformed), ReplyStep::Fail("decode phoenix frame".into()));
}
