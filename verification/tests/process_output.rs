use ab_av1::duration::Duration;
use ab_av1::process::command_line::CommandLine;
use ab_av1::process::ffmpeg_out::{
    parse_ffmpeg_progress, parse_ffmpeg_stream_sizes, parse_label_size, FfmpegOut, FfmpegOutStream,
    FfmpegProgress, FfmpegStreamSizes, ProgressTime, StreamStep,
};
use ab_av1::process::managed::{
    managed_event_from_stream_event, stop_signals, ExitStatus, GroupSignal, ManagedEvent,
    ManagedOutput, ManagedProcessOptions, OutputReplayGap, OutputTruncation, ProcessDone,
    ProcessGroups, ProcessScope, RawOutputChunk, StderrStream, StreamEvent, StreamPhase,
    StreamPolicy,
};
use ab_av1::process::{cmd_err, ensure_success, exit_ok, exit_ok_stderr, ChunkLineError, Chunks, MAX_LEN};

/// The span that a progress time stands for.
fn span(time: &ProgressTime) -> Duration {
    match time {
        ProgressTime::Known(d) => *d,
        ProgressTime::Clock { whole_secs, seconds } => {
            let seconds: f64 = seconds.parse().expect("seconds");
            let d = std::time::Duration::from_secs(*whole_secs)
                + std::time::Duration::from_secs_f64(seconds);
            Duration::new(d.as_secs(), d.subsec_nanos())
        }
    }
}

fn progress(out: Option<FfmpegOut>) -> Option<(u64, f32, Duration)> {
    match out {
        Some(FfmpegOut::Progress { frame, fps, time }) => {
            Some((frame, fps.parse().expect("fps"), span(&time)))
        }
        _ => None,
    }
}

fn exit(code: i32) -> ExitStatus {
    ExitStatus { code: Some(code) }
}

fn stderr(bytes: &[u8]) -> ManagedEvent {
    ManagedEvent::RawStderr(RawOutputChunk::new(bytes.to_vec()))
}

fn done(code: i32) -> ManagedEvent {
    ManagedEvent::ProcessDone(ProcessDone::new(exit(code)))
}

fn out_stream(name: &str) -> FfmpegOutStream {
    FfmpegOutStream::new(name.into(), name.into())
}

#[test]
fn parse_ffmpeg_progress_returns_typed_progress() {
    let out = "frame=  161 fps= 73 q=-0.0 size=  978076kB time=00:00:06.71 bitrate=1193201.6kbits/s dup=13 drop=0 speed=3.03x    ";
    let FfmpegProgress { frame, fps, time } = parse_ffmpeg_progress(out).expect("progress");
    assert_eq!(frame, 161);
    assert_eq!(fps.parse::<f32>().expect("fps"), 73.0);
    assert_eq!(span(&time), Duration::new(6, 710_000_000));
}

#[test]
fn parse_ffmpeg_progress_chunk() {
    let out = "frame=  288 fps= 94 q=-0.0 size=N/A time=01:23:12.34 bitrate=N/A speed=3.94x    \r";
    assert_eq!(
        progress(FfmpegOut::try_parse(out)),
        Some((288, 94.0, Duration::new(60 * 60 + 23 * 60 + 12, 340_000_000)))
    );
}

#[test]
fn parse_ffmpeg_progress_accepts_elapsed_hours_over_23() {
    let out = "frame=  288 fps= 94 q=-0.0 size=N/A time=25:00:00.00 bitrate=N/A speed=3.94x    \r";
    assert_eq!(
        progress(FfmpegOut::try_parse(out)),
        Some((288, 94.0, Duration::from_secs(25 * 60 * 60)))
    );
}

#[test]
fn parse_ffmpeg_progress_split_chunk() {
    let mut chunks = Chunks::default();
    let first = b"frame=  288 fps= 94 q=-0.0 size=N/A time=01:23:";
    let second = b"12.34 bitrate=N/A speed=3.94x    \r";

    assert_eq!(
        FfmpegOut::try_parse(std::str::from_utf8(first).unwrap()),
        None
    );
    chunks.push(first);
    assert_eq!(FfmpegOut::try_parse(chunks.last_line()), None);

    chunks.push(second);
    assert_eq!(
        progress(FfmpegOut::try_parse(chunks.last_line())),
        Some((288, 94.0, Duration::new(60 * 60 + 23 * 60 + 12, 340_000_000)))
    );
}

#[test]
fn parse_ffmpeg_progress_line() {
    let out = "frame=  161 fps= 73 q=-0.0 size=  978076kB time=00:00:06.71 bitrate=1193201.6kbits/s dup=13 drop=0 speed=3.03x    ";
    assert_eq!(
        progress(FfmpegOut::try_parse(out)),
        Some((161, 73.0, Duration::new(6, 710_000_000)))
    );
}

#[test]
fn parse_ffmpeg_progress_na_time() {
    let out = "frame=  288 fps= 94 q=-0.0 size=N/A time=N/A bitrate=N/A speed=3.94x    ";
    assert_eq!(
        FfmpegOut::try_parse(out),
        Some(FfmpegOut::Progress {
            frame: 288,
            fps: "94".into(),
            time: ProgressTime::Known(Duration::zero()),
        })
    );
}

#[test]
fn parse_ffmpeg_stream_sizes_returns_typed_sizes() {
    let out = "video:2897022kB audio:537162kB subtitle:0kB other streams:0kB global headers:0kB muxing overhead: 0.289700%\n";
    assert_eq!(
        parse_ffmpeg_stream_sizes(out),
        Some(FfmpegStreamSizes {
            video: 2897022 * 1024,
            audio: 537162 * 1024,
            subtitle: 0,
            other: 0,
        })
    );
}

#[test]
fn parse_ffmpeg_out_stream_sizes() {
    let out = "video:2897022kB audio:537162kB subtitle:0kB other streams:0kB global headers:0kB muxing overhead: 0.289700%\n";
    assert_eq!(
        FfmpegOut::try_parse(out),
        Some(FfmpegOut::StreamSizes {
            video: 2897022 * 1024,
            audio: 537162 * 1024,
            subtitle: 0,
            other: 0,
        })
    );
    assert_eq!(parse_label_size("audio:", "video:1kB audio:537162kB"), Some(537162 * 1024));
    assert_eq!(FfmpegOut::try_parse("nothing to see"), None);
}

#[test]
fn chunks_checked_line_map_reports_malformed_utf8() {
    let mut chunks = Chunks::default();
    chunks.push(b"good line\nbad \xff line\n");

    assert_eq!(
        chunks.rfind_line_map_checked(|line| if line.contains("missing") {
            Some(line)
        } else {
            None
        }),
        Err(ChunkLineError::Utf8)
    );
}

#[test]
fn chunks_find_the_latest_line() {
    let mut chunks = Chunks::default();
    chunks.push(b"one 1\ntwo 2\r\nthree 3\n");
    assert_eq!(chunks.rfind_line(|l| l.contains("t")), Some("three 3"));
    assert_eq!(chunks.rfind_line(|l| l.contains("two")), Some("two 2"));
    assert_eq!(chunks.rfind_line(|l| l.contains("four")), None);
    assert_eq!(
        chunks.rfind_line_map(|l| l.strip_prefix("one ").map(|n| n.to_string())),
        Some("1".to_string())
    );
}

#[test]
fn ffmpeg_out_stream_parses_stderr_progress_and_waits() {
    let mut stream = out_stream("progress fixture");
    let step = stream.on_event(stderr(b"frame=12 fps=24 q=-0.0 size=N/A time=00:00:01.50 speed=1x\r"));
    match step {
        StreamStep::Item(item) => {
            assert_eq!(progress(Some(item)), Some((12, 24.0, Duration::new(1, 500_000_000))))
        }
        other => panic!("{other:?}"),
    }
    assert_eq!(stream.on_event(done(0)), StreamStep::Continue);
    assert!(stream.wait_result().expect("wait progress fixture").success());
}

#[test]
fn ffmpeg_out_stream_supports_long_running_periodic_progress() {
    let mut stream = out_stream("periodic progress fixture");
    let lines: [(&[u8], u64, Duration); 2] = [
        (b"frame=12 fps=24 time=00:00:01.50 speed=1x\r", 12, Duration::new(1, 500_000_000)),
        (b"frame=24 fps=24 time=00:00:03.00 speed=1x\r", 24, Duration::new(3, 0)),
    ];
    for (line, frame, time) in lines {
        match stream.on_event(stderr(line)) {
            StreamStep::Item(item) => assert_eq!(progress(Some(item)), Some((frame, 24.0, time))),
            other => panic!("{other:?}"),
        }
    }
    stream.on_event(done(0));
    assert!(stream.wait_result().expect("wait").success());
}

#[test]
fn ffmpeg_out_stream_wait_succeeds_for_process_done_without_progress() {
    let mut stream = out_stream("no-progress fixture");
    assert_eq!(stream.on_event(stderr(b"warning\n")), StreamStep::Continue);
    assert!(stream.wait_result().is_err());
    stream.on_event(done(0));
    assert!(stream.wait_result().expect("wait no-progress fixture").success());
}

#[test]
fn ffmpeg_out_stream_reports_failure_with_stderr_context() {
    let mut stream = out_stream("failure fixture");
    stream.on_event(stderr(b"badness\n"));
    let err = match stream.on_event(done(7)) {
        StreamStep::Failed(err) => err,
        other => panic!("non-zero exit should surface as stream error: {other:?}"),
    };
    assert!(err.contains("failure fixture exit code 7"));
    assert!(err.contains("----cmd-----\nfailure fixture"));
    assert!(err.contains("---stderr---\nbadness"));
}

#[test]
fn ffmpeg_out_stream_failure_context_keeps_recent_bounded_stderr() {
    let mut stream = out_stream("bounded failure fixture");
    for n in 0..5000 {
        stream.on_event(stderr(format!("line-{n:04}\n").as_bytes()));
    }
    let err = match stream.on_event(done(7)) {
        StreamStep::Failed(err) => err,
        other => panic!("non-zero exit should surface as stream error: {other:?}"),
    };
    assert!(err.contains("bounded failure fixture exit code 7"));
    assert!(err.contains("line-4999"));
    assert!(!err.contains("line-0000"));
    assert!(err.len() < 34_000, "stderr context should stay bounded");
}

#[test]
fn ffmpeg_out_stream_skips_replay_gaps() {
    let mut stream = out_stream("gap");
    assert_eq!(
        stream.on_event(ManagedEvent::ReplayGap(OutputReplayGap)),
        StreamStep::Continue
    );
}

#[test]
fn ffmpeg_out_stream_overwrites_lines_that_end_in_a_carriage_return() {
    let mut stream = out_stream("overwriting fixture");
    stream.on_event(stderr(b"kept line\nfirst progress\r"));
    stream.on_event(stderr(b"second progress\r"));
    stream.on_event(stderr(b"badness\n"));
    match stream.on_event(ManagedEvent::ProcessDone(ProcessDone::new(exit(7)))) {
        StreamStep::Failed(message) => {
            assert!(message.contains("kept line\nbadness"), "{message}");
            assert!(!message.contains("progress"), "{message}");
        }
        other => panic!("{other:?}"),
    }
}

#[test]
fn raw_output_chunk_exposes_borrowed_bytes_for_parsers() {
    let chunk = RawOutputChunk::new(b"progress".to_vec());
    assert_eq!(chunk.as_bytes(), b"progress");
    assert_eq!(chunk.into_bytes(), b"progress");
}

#[test]
fn output_truncation_is_an_explicit_terminal_collection_state() {
    assert_eq!(
        OutputTruncation::from_truncated(false),
        OutputTruncation::Complete
    );
    assert_eq!(
        OutputTruncation::from_truncated(true),
        OutputTruncation::Truncated
    );
}

#[test]
fn collected_output_is_bounded() {
    let whole = ManagedOutput::collected(exit(0), b"abc".to_vec(), 3);
    assert_eq!(whole.stderr, b"abc");
    assert!(!whole.stderr_truncation.is_truncated());
    let cut = ManagedOutput::collected(exit(0), b"abcd".to_vec(), 3);
    assert_eq!(cut.stderr, b"bcd");
    assert!(cut.stderr_truncation.is_truncated());
}

// ---- what child processes do ----

/// What a portable stand-in for a child process does.
#[derive(Debug, Clone, Copy, PartialEq, Eq)]
enum ManagedProcessFixture {
    StderrProgress,
    StderrWarning,
    StderrDigits,
    StderrOneTwo,
    StderrOneSleepTwo,
    StderrFfmpegProgress,
    StderrFfmpegProgressTwice,
    StderrBadnessExit7,
    StderrManyLinesExit7,
    StdoutNoiseStderrFfmpegProgress,
    StdoutOneSleepTwo,
    SleepLong,
    VmafScoreThenSleep,
    VmafProgressScore,
    VmafNoScore,
    VmafScoreExit7,
    StdoutNoiseVmafProgressScore,
    XpsnrScoreThenSleep,
    XpsnrProgressScore,
    XpsnrNoScore,
    XpsnrScoreExit7,
    StdoutNoiseXpsnrProgressScore,
}

impl ManagedProcessFixture {
    /// All fixtures, in the order of their declaration.
    const ALL: [Self; 22] = [
        Self::StderrProgress,
        Self::StderrWarning,
        Self::StderrDigits,
        Self::StderrOneTwo,
        Self::StderrOneSleepTwo,
        Self::StderrFfmpegProgress,
        Self::StderrFfmpegProgressTwice,
        Self::StderrBadnessExit7,
        Self::StderrManyLinesExit7,
        Self::StdoutNoiseStderrFfmpegProgress,
        Self::StdoutOneSleepTwo,
        Self::SleepLong,
        Self::VmafScoreThenSleep,
        Self::VmafProgressScore,
        Self::VmafNoScore,
        Self::VmafScoreExit7,
        Self::StdoutNoiseVmafProgressScore,
        Self::XpsnrScoreThenSleep,
        Self::XpsnrProgressScore,
        Self::XpsnrNoScore,
        Self::XpsnrScoreExit7,
        Self::StdoutNoiseXpsnrProgressScore,
    ];

    /// The fixture of this name.
    fn from_name(name: &str) -> Option<Self> {
        Self::ALL.into_iter().find(|fixture| fixture.name() == name)
    }

    /// The name of the fixture.
    fn name(self) -> &'static str {
        match self {
            Self::StderrProgress => "stderr-progress",
            Self::StderrWarning => "stderr-warning",
            Self::StderrDigits => "stderr-digits",
            Self::StderrOneTwo => "stderr-onetwo",
            Self::StderrOneSleepTwo => "stderr-one-sleep-two",
            Self::StderrFfmpegProgress => "stderr-ffmpeg-progress",
            Self::StderrFfmpegProgressTwice => "stderr-ffmpeg-progress-twice",
            Self::StderrBadnessExit7 => "stderr-badness-exit-7",
            Self::StderrManyLinesExit7 => "stderr-many-lines-exit-7",
            Self::StdoutNoiseStderrFfmpegProgress => "stdout-noise-stderr-ffmpeg-progress",
            Self::StdoutOneSleepTwo => "stdout-one-sleep-two",
            Self::SleepLong => "sleep-long",
            Self::VmafScoreThenSleep => "vmaf-score-then-sleep",
            Self::VmafProgressScore => "vmaf-progress-score",
            Self::VmafNoScore => "vmaf-no-score",
            Self::VmafScoreExit7 => "vmaf-score-exit-7",
            Self::StdoutNoiseVmafProgressScore => "stdout-noise-vmaf-progress-score",
            Self::XpsnrScoreThenSleep => "xpsnr-score-then-sleep",
            Self::XpsnrProgressScore => "xpsnr-progress-score",
            Self::XpsnrNoScore => "xpsnr-no-score",
            Self::XpsnrScoreExit7 => "xpsnr-score-exit-7",
            Self::StdoutNoiseXpsnrProgressScore => "stdout-noise-xpsnr-progress-score",
        }
    }

    /// What the fixture writes, and how it ends.
    fn expected_sequence(self) -> &'static str {
        match self {
            Self::StderrProgress => "stderr: progress; exit 0",
            Self::StderrWarning => "stderr: warning; exit 0",
            Self::StderrDigits => "stderr: 1234567890; exit 0",
            Self::StderrOneTwo => "stderr: onetwo; exit 0",
            Self::StderrOneSleepTwo => "stderr: one; delay; stderr: two; exit 0",
            Self::StderrFfmpegProgress => "stderr: one ffmpeg progress record; exit 0",
            Self::StderrFfmpegProgressTwice => "stderr: ffmpeg progress frame 12; delay; stderr: ffmpeg progress frame 24; exit 0",
            Self::StderrBadnessExit7 => "stderr: badness; exit 7",
            Self::StderrManyLinesExit7 => "stderr: 5000 numbered lines; exit 7",
            Self::StdoutNoiseStderrFfmpegProgress => "stdout: noise; stderr: one ffmpeg progress record; exit 0",
            Self::StdoutOneSleepTwo => "stdout: one; delay; stdout: two; exit 0",
            Self::SleepLong => "delay long enough for timeout/termination tests; exit 0 if not killed",
            Self::VmafScoreThenSleep => "stderr: VMAF score; delay long enough for cancellation tests",
            Self::VmafProgressScore => "stderr: ffmpeg progress; delay; stderr: VMAF score; exit 0",
            Self::VmafNoScore => "stderr: ffmpeg progress without score; exit 0",
            Self::VmafScoreExit7 => "stderr: VMAF score; stderr: badness; exit 7",
            Self::StdoutNoiseVmafProgressScore => "stdout: noise; stderr: ffmpeg progress; delay; stderr: VMAF score; exit 0",
            Self::XpsnrScoreThenSleep => "stderr: XPSNR score; delay long enough for cancellation tests",
            Self::XpsnrProgressScore => "stderr: ffmpeg progress; delay; stderr: XPSNR score; exit 0",
            Self::XpsnrNoScore => "stderr: ffmpeg progress without score; exit 0",
            Self::XpsnrScoreExit7 => "stderr: XPSNR score; stderr: badness; exit 7",
            Self::StdoutNoiseXpsnrProgressScore => "stdout: noise; stderr: ffmpeg progress; delay; stderr: XPSNR score; exit 0",
        }
    }

    /// Whether progress records come more than once.
    fn has_periodic_progress(self) -> bool {
        matches!(self, Self::StderrFfmpegProgressTwice)
    }

    /// Whether a score comes before the process ends.
    fn has_score_before_continued_runtime(self) -> bool {
        matches!(self, Self::VmafScoreThenSleep | Self::XpsnrScoreThenSleep)
    }

    /// Whether much is written to stderr.
    fn has_noisy_stderr(self) -> bool {
        matches!(self, Self::StderrManyLinesExit7)
    }

    /// Whether stdout is written to as well.
    fn has_noisy_stdout(self) -> bool {
        matches!(self, Self::StdoutNoiseStderrFfmpegProgress | Self::StdoutNoiseVmafProgressScore | Self::StdoutNoiseXpsnrProgressScore)
    }

    /// Whether the process fails.
    fn has_non_zero_exit(self) -> bool {
        matches!(self, Self::StderrBadnessExit7 | Self::StderrManyLinesExit7 | Self::VmafScoreExit7 | Self::XpsnrScoreExit7)
    }

    /// Whether output ends after a pause.
    fn has_delayed_eof(self) -> bool {
        matches!(self, Self::StderrOneSleepTwo | Self::StdoutOneSleepTwo)
    }

    /// Whether the process outlives any timeout.
    fn has_timeout_cleanup(self) -> bool {
        matches!(self, Self::SleepLong)
    }

    /// Whether output exceeds what is kept.
    fn has_truncation_volume(self) -> bool {
        matches!(self, Self::StderrManyLinesExit7)
    }

    /// Whether output can be replayed to a late subscriber.
    fn supports_delayed_subscription_replay(self) -> bool {
        matches!(self, Self::StderrOneTwo | Self::VmafProgressScore | Self::XpsnrProgressScore)
    }
}

/// Has a stream take what a fixture writes to stderr and how it ends, and gives
/// what comes of it.
fn streamed(fixture: ManagedProcessFixture) -> Result<ExitStatus, String> {
    let mut stream = out_stream(fixture.name());
    for part in fixture.expected_sequence().split("; ") {
        let event = match (part.strip_prefix("stderr: "), part.strip_prefix("exit ")) {
            (Some(text), _) => stderr(format!("{text}\n").as_bytes()),
            (_, Some(code)) => match code.parse() {
                Ok(code) => ManagedEvent::ProcessDone(ProcessDone::new(exit(code))),
                Err(_) => continue,
            },
            _ => continue,
        };
        if let StreamStep::Failed(message) = stream.on_event(event) {
            return Err(message);
        }
    }
    stream.wait_result()
}

#[test]
fn streams_cope_with_each_fixture() {
    for fixture in ManagedProcessFixture::ALL {
        let ends = fixture.expected_sequence().ends_with(" exit 0");
        match streamed(fixture) {
            Ok(status) => assert!(ends && status.success(), "{}", fixture.name()),
            Err(message) if fixture.has_non_zero_exit() => {
                assert!(message.contains("exit code 7"), "{message}");
            }
            Err(message) => {
                assert!(!ends, "{}", fixture.name());
                assert!(message.contains("before process completion"), "{message}");
            }
        }
    }
}

#[test]
fn streaming_fixture_catalog_covers_required_scenarios() {
    let fixtures = ManagedProcessFixture::ALL;

    for fixture in &fixtures {
        assert_eq!(
            ManagedProcessFixture::from_name(fixture.name()),
            Some(*fixture)
        );
        assert!(
            !fixture.expected_sequence().is_empty(),
            "{} should describe its expected stream sequence",
            fixture.name()
        );
    }

    assert!(fixtures.iter().any(|fixture| fixture.has_periodic_progress()));
    assert!(fixtures
        .iter()
        .any(|fixture| fixture.has_score_before_continued_runtime()));
    assert!(fixtures.iter().any(|fixture| fixture.has_noisy_stderr()));
    assert!(fixtures.iter().any(|fixture| fixture.has_noisy_stdout()));
    assert!(fixtures.iter().any(|fixture| fixture.has_non_zero_exit()));
    assert!(fixtures.iter().any(|fixture| fixture.has_delayed_eof()));
    assert!(fixtures.iter().any(|fixture| fixture.has_timeout_cleanup()));
    assert!(fixtures.iter().any(|fixture| fixture.has_truncation_volume()));
    assert!(fixtures
        .iter()
        .any(|fixture| fixture.supports_delayed_subscription_replay()));
    assert_eq!(ManagedProcessFixture::from_name("no such fixture"), None);
}

#[test]
fn managed_process_streams_stderr_events_then_done() {
    let mut stream = StderrStream::new(StreamPolicy::MustComplete);
    let (gap, event) = stream.on_stream_event(StreamEvent::Chunk(b"one".to_vec()), true);
    assert!(!gap);
    assert_eq!(event, Ok(Some(stderr(b"one"))));
    let (_, event) = stream.on_stream_event(StreamEvent::Eof, true);
    assert_eq!(event, Ok(None));
    assert_eq!(stream.phase, StreamPhase::Waiting);
    assert_eq!(stream.on_exit(Some(exit(0))), Some(ProcessDone::new(exit(0))));
    assert_eq!(stream.phase, StreamPhase::Finished);
    assert!(!stream.terminates_child_on_drop());
}

#[test]
fn terminate_on_drop_stderr_stream_yields_replay_gap_for_delayed_subscriber() {
    let mut stream = StderrStream::new(StreamPolicy::TerminateOnDrop);
    let (gap, event) = stream.on_stream_event(StreamEvent::Chunk(b"one".to_vec()), true);
    assert!(gap);
    assert_eq!(event, Ok(Some(stderr(b"one"))));
    let (gap, _) = stream.on_stream_event(StreamEvent::Chunk(b"two".to_vec()), true);
    assert!(!gap);
}

#[test]
fn dropping_terminate_on_drop_process_terminates_instead_of_panicking() {
    let stream = StderrStream::new(StreamPolicy::TerminateOnDrop);
    assert!(stream.terminates_child_on_drop());
}

#[test]
fn stream_events_become_managed_events() {
    assert_eq!(
        managed_event_from_stream_event(StreamEvent::Gap),
        Ok(Some(ManagedEvent::ReplayGap(OutputReplayGap)))
    );
    assert_eq!(managed_event_from_stream_event(StreamEvent::Eof), Ok(None));
    assert!(managed_event_from_stream_event(StreamEvent::ReadError("broken".into()))
        .expect_err("read error")
        .contains("broken"));
}

#[test]
fn process_scope_controls_only_its_process_group() {
    let a = ProcessScope::new("a".into());
    let b = ProcessScope::new("b".into());
    let mut groups = ProcessGroups::new();
    groups.register(10, Some(&a));
    groups.register(20, Some(&b));
    groups.register(30, None);
    assert_eq!(groups.groups_of(&a), [10]);
    assert_eq!(groups.groups_of(&b), [20]);
    let mut all = groups.all_groups();
    all.sort_unstable();
    assert_eq!(all, [10, 20, 30]);
}

#[test]
fn process_scope_stops_only_its_process_group() {
    let a = ProcessScope::new("a".into());
    let b = ProcessScope::new("b".into());
    let mut groups = ProcessGroups::new();
    groups.register(10, Some(&a));
    groups.register(20, Some(&b));
    groups.unregister(10, Some(&a));
    assert!(groups.groups_of(&a).is_empty());
    assert_eq!(groups.groups_of(&b), [20]);
    assert_eq!(groups.all_groups(), [20]);
    assert_eq!(stop_signals(), [GroupSignal::Resume, GroupSignal::Terminate]);
    assert_eq!(a.id(), "a");
}

#[test]
fn process_options_have_defaults_and_overrides() {
    let options = ManagedProcessOptions::default();
    assert_eq!(options.stderr_limit(), 32_768);
    assert_eq!(options.termination_grace(), Duration::from_millis(25));
    assert_eq!(options.wait_timeout(), Duration::from_secs(30 * 24 * 60 * 60));
    let options = options
        .with_wait_timeout(Duration::from_secs(1))
        .with_stderr_limit(8);
    assert_eq!(options.wait_timeout(), Duration::from_secs(1));
    assert_eq!(options.stderr_limit(), 8);
}

#[test]
fn exit_statuses_become_results() {
    assert_eq!(ensure_success("ffmpeg", exit(0), b""), Ok(()));
    let err = ensure_success("ffmpeg", exit(1), b"bad \xff thing").expect_err("exit 1");
    assert!(err.contains("ffmpeg"), "{err}");
    assert!(err.contains("bad \u{fffd} thing"), "{err}");
    assert_eq!(exit_ok("ffmpeg", Ok(exit(0))), Ok(()));
    assert!(exit_ok("ffmpeg", Ok(exit(2))).expect_err("exit 2").contains("2"));
    assert!(exit_ok("ffmpeg", Err("lost".into())).expect_err("lost").contains("lost"));
    let mut chunks = Chunks::default();
    chunks.push(b"context\n");
    let err = exit_ok_stderr("ffmpeg", Ok(exit(3)), "ffmpeg -i x", &chunks).expect_err("exit 3");
    assert!(err.contains("ffmpeg -i x") && err.contains("context"), "{err}");
    assert!(cmd_err("why", "cmd", &chunks).contains("why"));
}

#[test]
fn chunks_never_grow_beyond_their_bound() {
    let mut chunks = Chunks::default();
    for n in 0..10_000u32 {
        chunks.push(format!("line {n}\n").as_bytes());
    }
    let kept = chunks.rfind_line(|l| l == "line 9999");
    assert_eq!(kept, Some("line 9999"));
    assert!(cmd_err("", "", &chunks).len() < MAX_LEN + 100);
}

#[test]
fn searches_stop_at_the_line_that_is_found() {
    let mut chunks = Chunks::default();
    chunks.push(b"oldest\nwanted 1\nnewer\nnewest");
    let seen = std::cell::RefCell::new(Vec::new());
    let found = chunks.rfind_line_map(|line| {
        seen.borrow_mut().push(line.to_string());
        line.strip_prefix("wanted ").map(|n| n.to_string())
    });
    assert_eq!(found.as_deref(), Some("1"));
    assert_eq!(seen.into_inner(), ["newest", "newer", "wanted 1"]);
}

#[test]
fn chunks_drop_whole_lines() {
    let mut chunks = Chunks::default();
    chunks.push(format!("{}\nsecond\n", "x".repeat(MAX_LEN - 10)).as_bytes());
    chunks.push(b"third line\n");
    assert_eq!(chunks.rfind_line(|l| l.starts_with('x')), None);
    assert_eq!(chunks.rfind_line(|l| l.starts_with("second")), Some("second"));
    assert_eq!(cmd_err("", "", &chunks), cmd_err("", "", &{
        let mut kept = Chunks::default();
        kept.push(b"second\nthird line\n");
        kept
    }));
}

#[test]
fn command_lines_are_built_from_options() {
    let mut cmd = CommandLine::new("ffmpeg");
    cmd.arg2("-i", "my clip.mkv");
    cmd.arg2_opt("-vf", None);
    cmd.arg2_opt("-vf", Some("scale=1:2"));
    cmd.arg2_if(false, "-a", "b");
    cmd.arg2_if(true, "-c", "d");
    cmd.arg_if(false, "-no");
    cmd.arg_if(true, "-yes");
    assert_eq!(
        cmd.args,
        ["-i", "my clip.mkv", "-vf", "scale=1:2", "-c", "d", "-yes"]
    );
    assert_eq!(cmd.to_cmd_str(), "ffmpeg -i my clip.mkv -vf scale=1:2 -c d -yes");
}
