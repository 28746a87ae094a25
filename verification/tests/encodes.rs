use ab_av1::command::args::encode::{Encode, Encoder};
use ab_av1::command::args::EncodeToOutput;
use ab_av1::command::encode::error::EncodePlanError;
use ab_av1::command::encode::lifecycle::{tmp_output_name, PlannedOutput};
use ab_av1::command::encode::plan::{EncodeConfig, EncodePlan};
use ab_av1::command::encode::preflight::{audio_config, resolve_output};
use ab_av1::command::encode::progress::{
    apply_ffmpeg_event, BarUpdate, EncodeEvent, ProgressState, StreamSizes,
};
use ab_av1::command::encode::report::{encoding_line, render_encode_summary, EncodeMetrics};
use ab_av1::command::encode::running::{
    bar_length, floor_ms, media_time, next_stage, on_event, verify_duration, verify_message,
    verify_position, EventContext, RunStage, Verification,
};
use ab_av1::command::encode::{default_output_ext, default_output_name};
use ab_av1::command::print_completions::{adjust_completions, PrintCompletionsConfig, Shell};
use ab_av1::command::sample_encode::result::Fraction;
use ab_av1::command::{auto_encode_prints, search_prints, CommandKind, Level};
use ab_av1::duration::Duration;
use ab_av1::ffmpeg::{Crf, EncodeDestination};
use ab_av1::ffprobe::Ffprobe;
use ab_av1::float::{Double, Single};
use ab_av1::path::{path_extension, path_file_name, path_is_under, path_join, path_parent};
use ab_av1::temporary::{TempFiles, TempKind};

fn single(x: f32) -> Single {
    Single::from_bits(x.to_bits())
}

fn double(x: f64) -> Double {
    Double::from_bits(x.to_bits())
}

fn svtav1() -> Encoder {
    Encoder::from_str("libsvtav1")
}

fn test_probe(channels: Option<i64>) -> Ffprobe {
    Ffprobe {
        duration: Ok(Duration::from_secs(60)),
        has_audio: true,
        max_audio_channels: channels,
        fps: Ok(double(24.0)),
        resolution: Some((1280, 720)),
        is_image: false,
        pix_fmt: None,
    }
}

fn encode_to(output: Option<&str>) -> EncodeToOutput {
    EncodeToOutput {
        output: output.map(|o| o.to_string()),
        audio_codec: None,
        downmix_to_stereo: false,
        video_only: false,
        overwrite_input: false,
    }
}

fn encode_config(input: &str, output: Option<&str>) -> EncodeConfig {
    EncodeConfig {
        encode: Encode {
            encoder: svtav1(),
            input: input.into(),
            vfilter: None,
            pix_format: None,
            preset: None,
            keyint: None,
            scd: None,
            svt_args: vec![],
            enc_args: vec![],
            enc_input_args: vec![],
        },
        crf: Crf::new(single(30.0), "30".into(), "30".into()),
        encode_to: encode_to(output),
    }
}

fn build(config: EncodeConfig, channels: Option<i64>, same: bool) -> Result<EncodePlan, EncodePlanError> {
    EncodePlan::build(config, test_probe(channels), same, Ok(None))
}

#[test]
fn default_output_ext_cases() {
    for (input, is_image, expected) in [
        ("clip.mp4", false, "mp4"),
        ("clip.mkv", false, "mkv"),
        ("clip.webm", false, "webm"),
        ("clip.mov", false, "mov"),
        ("still.png", true, "avif"),
    ] {
        assert_eq!(default_output_ext(input, &svtav1(), is_image), expected);
    }
}

#[test]
fn encode_default_output_name_adds_encoder_prefix() {
    let out = default_output_name("movie.mkv", &svtav1(), false);
    assert_eq!(out, "movie.av1.mkv");
}

#[test]
fn mod_default_output_name_adds_encoder_prefix() {
    let out = default_output_name("movie.mkv", &svtav1(), false);
    assert_eq!(out, "movie.av1.mkv");
}

#[test]
fn build_rejects_same_input_and_output() {
    let config = encode_config("input.mkv", Some("input.mkv"));
    assert_eq!(build(config, Some(6), true), Err(EncodePlanError::SameInputOutput));
}

#[test]
fn build_rejects_stereo_downmix_with_copy_codec() {
    let mut config = encode_config("input.mkv", Some("output.mkv"));
    config.encode_to.downmix_to_stereo = true;
    config.encode_to.audio_codec = Some("copy".into());
    assert_eq!(
        build(config, Some(6), false),
        Err(EncodePlanError::StereoDownmixWithCopy)
    );
}

#[test]
fn build_default_output_name_for_mkv_input() {
    let plan = build(encode_config("movie.mkv", None), Some(6), false).expect("plan build");
    assert!(plan.defaulting_output());
    assert_eq!(plan.output_path(), "movie.av1.mkv");
}

#[test]
fn build_carries_video_only_and_stereo_downmix_decisions() {
    let mut config = encode_config("input.mkv", Some("output.mkv"));
    config.encode_to.video_only = true;
    config.encode_to.downmix_to_stereo = true;

    let plan = build(config, Some(6), false).expect("plan build");
    assert!(plan.spawn_config().video_only);
    assert!(plan.spawn_config().stereo_downmix);
    assert!(plan.spawn_config().has_audio);
    let mut temps = TempFiles::new();
    let (partial, session) = plan.begin(&mut temps);
    assert_eq!(temps.to_clean(true), ["output.mkv"]);
    assert!(session.ffmpeg_args().expect("ffmpeg args").video_only);
    assert_eq!(partial.encode_destination(), "output.mkv");
    let target = session.target(&partial);
    assert_eq!(target.output, "output.mkv");
    assert!(target.has_audio && target.downmix_to_stereo);
    assert_eq!(session.input(), "input.mkv");
    assert_eq!(session.audio_codec(), None);
}

#[test]
fn build_skips_stereo_downmix_when_channels_at_most_three() {
    let mut config = encode_config("input.mkv", Some("output.mkv"));
    config.encode_to.downmix_to_stereo = true;

    let plan = build(config, Some(2), false).expect("plan build");
    assert!(!plan.spawn_config().stereo_downmix);
}

#[test]
fn build_reports_bad_ffmpeg_args() {
    let mut config = encode_config("input.mkv", Some("output.mkv"));
    config.encode.enc_args = vec!["-crf=3".into()];
    match build(config, Some(2), false) {
        Err(EncodePlanError::FfmpegArgs(m)) => assert!(m.contains("`-crf` not allowed"), "{m}"),
        other => panic!("{:?}", other.map(|_| ())),
    }
}

#[test]
fn resolve_output_rejects_same_input_and_output() {
    let err = resolve_output(
        "input.mkv",
        &svtav1(),
        &encode_to(Some("input.mkv")),
        &test_probe(Some(6)),
        true,
    )
    .map(|_| ())
    .expect_err("expected same-file error");
    assert_eq!(err, EncodePlanError::SameInputOutput);
    assert!(!err.message().is_empty());
}

#[test]
fn audio_config_rejects_stereo_downmix_with_copy() {
    let mut to = encode_to(None);
    to.audio_codec = Some("copy".into());
    to.downmix_to_stereo = true;
    let err = audio_config(&to, &test_probe(Some(6)))
        .map(|_| ())
        .expect_err("expected error");
    assert_eq!(err, EncodePlanError::StereoDownmixWithCopy);
}

#[test]
fn apply_ffmpeg_event_records_stream_sizes() {
    let mut state = ProgressState::default();
    let update = apply_ffmpeg_event(
        &mut state,
        EncodeEvent::StreamSizes(StreamSizes {
            video: 100,
            audio: 20,
            subtitle: 0,
            other: 0,
        }),
    );
    assert!(update.is_none());
    let sizes = state.stream_sizes.expect("stream sizes");
    assert_eq!(sizes.video, 100);
    assert_eq!(sizes.audio, 20);
}

#[test]
fn apply_ffmpeg_event_returns_fps_update() {
    let mut state = ProgressState::default();
    let update = apply_ffmpeg_event(
        &mut state,
        EncodeEvent::Progress {
            frame: 1,
            fps: single(24.0),
            time: Duration::from_secs(1),
        },
    );
    match update {
        Some(BarUpdate::Fps { fps, time, .. }) => {
            assert_eq!(fps, single(24.0));
            assert_eq!(time, Duration::from_secs(1));
        }
        None => panic!("expected fps update"),
    }
}

#[test]
fn apply_ffmpeg_event_ignores_zero_fps() {
    let mut state = ProgressState::default();
    let update = apply_ffmpeg_event(
        &mut state,
        EncodeEvent::Progress {
            frame: 0,
            fps: single(0.0),
            time: Duration::zero(),
        },
    );
    assert!(update.is_none());
}

#[test]
fn percent_of_input_is_correct() {
    let metrics = EncodeMetrics::from_bytes(50, 200, None);
    let of = |f: Option<Fraction>| f.map_or(0.0, |f| 100.0 * f.part as f64 / f.whole as f64);
    assert_eq!(
        of(EncodeMetrics::percent_of_input(metrics.output_bytes, metrics.input_bytes)),
        25.0
    );
    assert_eq!(of(EncodeMetrics::percent_of_input(0, 0)), 0.0);
}

#[test]
fn render_encode_summary_includes_stream_breakdown() {
    let metrics = EncodeMetrics::from_bytes(
        100,
        400,
        Some(StreamSizes {
            video: 80,
            audio: 0,
            subtitle: 5,
            other: 0,
        }),
    );
    let text: String = render_encode_summary(&metrics, "25")
        .iter()
        .map(|s| s.text.as_str())
        .collect();
    assert!(text.contains("Encoded"));
    assert!(text.contains("subs:"));
    assert_eq!(text, "Encoded 100 B (25%, video:80 B, subs:5 B)");
}

#[test]
fn derives_media_time_from_frame_when_ffmpeg_reports_na() {
    let frame_time = std::time::Duration::from_secs_f64(240.0 / 24.0);
    let frame_time = Duration::new(frame_time.as_secs(), frame_time.subsec_nanos());
    assert_eq!(
        media_time(Duration::zero(), double(24.0), frame_time),
        Duration::from_secs(10)
    );
    assert_eq!(
        media_time(Duration::from_secs(3), double(24.0), frame_time),
        Duration::from_secs(3)
    );
    assert_eq!(
        media_time(Duration::zero(), double(0.0), frame_time),
        Duration::zero()
    );
}

#[test]
fn progress_moves_the_bar() {
    let mut state = ProgressState::default();
    let event = EncodeEvent::Progress {
        frame: 240,
        fps: single(48.0),
        time: Duration::from_secs(2),
    };
    let mut context = EventContext {
        source_fps: double(24.0),
        frame_time: Duration::from_secs(10),
        duration_known: true,
        fps_text: "48",
    };
    let tick = on_event(&mut state, event, &context).expect("tick");
    assert_eq!(tick.message, "48 fps, ");
    assert_eq!(tick.position, Some(2_000_000));
    context.duration_known = false;
    assert_eq!(on_event(&mut state, event, &context).expect("tick").position, None);
    assert!(bar_length(Duration::from_secs(1)) >= 1_000_000);
    assert_eq!(verify_message(single(0.0), ""), "verifying, ");
    assert_eq!(verify_message(single(9.0), "9"), "verifying 9 fps, ");
    assert_eq!(
        verify_position(Duration::from_secs(2), Duration::from_secs(1)),
        2_500_000
    );
}

#[test]
fn outputs_are_checked_before_they_are_kept() {
    let all = Verification { decode: true, duration: true };
    let timed = Some(Duration::from_secs(60));
    assert_eq!(next_stage(RunStage::Encode, all, timed), RunStage::VerifyDecode);
    assert_eq!(next_stage(RunStage::VerifyDecode, all, timed), RunStage::VerifyDuration);
    assert_eq!(next_stage(RunStage::VerifyDuration, all, timed), RunStage::Commit);
    assert_eq!(next_stage(RunStage::VerifyDecode, all, None), RunStage::Commit);
    let none = Verification { decode: false, duration: false };
    assert_eq!(next_stage(RunStage::Encode, none, timed), RunStage::Commit);

    let minute = Duration::from_secs(60);
    assert_eq!(verify_duration(minute, Duration::from_secs(58)), Ok(()));
    assert_eq!(verify_duration(minute, Duration::from_secs(62)), Ok(()));
    assert_eq!(
        verify_duration(minute, Duration::from_micros(57_000_400)),
        Err("verify: output duration 57s does not match input duration 1m".into())
    );
    assert_eq!(floor_ms(Duration::from_micros(57_000_400)), Duration::from_secs(57));
}

#[test]
fn outputs_are_written_beside_their_place() {
    assert_eq!(
        tmp_output_name("/out/movie.mkv").as_deref(),
        Ok("/out/.tmp.ab-av1-encoding.movie.mkv")
    );
    assert_eq!(
        tmp_output_name("movie.mkv").as_deref(),
        Ok(".tmp.ab-av1-encoding.movie.mkv")
    );
    assert!(tmp_output_name("/").is_err());
    let planned = PlannedOutput::new("/out/movie.mkv".into());
    assert_eq!(planned.path(), "/out/movie.mkv");
    let mut temps = TempFiles::new();
    let partial = planned.begin(&mut temps);
    assert_eq!(partial.path(), "/out/movie.mkv");
    assert_eq!(partial.commit(&mut temps).path(), "/out/movie.mkv");
    assert_eq!(encoding_line("/out/my movie.mkv"), "Encoding '/out/my movie.mkv'");
    assert_eq!(encoding_line("/out/movie.mkv"), "Encoding /out/movie.mkv");
}

#[test]
fn planned_output_is_not_registered_for_cleanup() {
    let mut temps = TempFiles::new();
    let planned = PlannedOutput::new("planned".into());
    assert!(
        !temps.remove(planned.path()),
        "planned output must not register cleanup"
    );
}

#[test]
fn partial_output_cleans_up_when_not_committed() {
    let mut temps = TempFiles::new();
    let partial = PlannedOutput::new("partial-drop".into()).begin(&mut temps);
    assert_eq!(
        temps.to_clean(false),
        [partial.path()],
        "uncommitted partial output must be deleted"
    );
    assert_eq!(temps.to_clean(true), [partial.path()]);
}

#[test]
fn completed_output_survives_cleanup() {
    let mut temps = TempFiles::new();
    temps.add("sample", TempKind::Keepable);
    let completed = PlannedOutput::new("completed".into())
        .begin(&mut temps)
        .commit(&mut temps);
    assert_eq!(completed.path(), "completed");
    assert_eq!(
        temps.to_clean(false),
        ["sample"],
        "completed output must survive cleanup"
    );
}

#[test]
fn files_are_removed_before_their_directories() {
    let mut temps = TempFiles::new();
    temps.add("/tmp/dir", TempKind::Keepable);
    temps.add("/tmp/dir/a", TempKind::NotKeepable);
    temps.add("/tmp/dir/sub/b", TempKind::Keepable);
    temps.add("/tmp/dir/sub", TempKind::NotKeepable);
    assert_eq!(
        temps.to_clean(false),
        ["/tmp/dir/sub/b", "/tmp/dir/a", "/tmp/dir/sub", "/tmp/dir"]
    );
    assert_eq!(temps.to_clean(true), ["/tmp/dir/a", "/tmp/dir/sub"]);
    // a path has one kind, the last that it was given
    temps.add("/tmp/dir/a", TempKind::Keepable);
    assert_eq!(temps.to_clean(true), ["/tmp/dir/sub"]);
    assert!(temps.remove("/tmp/dir/sub"));
    assert!(!temps.remove("/tmp/dir/sub"));
    assert!(temps.to_clean(true).is_empty());
}

#[test]
fn bash_completions_have_no_dash_in_function_names() {
    let bash = PrintCompletionsConfig::default();
    assert_eq!(bash.shell, Shell::Bash);
    assert_eq!(
        adjust_completions(bash, "_ab-av1() { ab-av1 } _ab-av1"),
        "_ab_av1() { ab-av1 } _ab_av1"
    );
    let zsh = PrintCompletionsConfig { shell: Shell::Zsh };
    assert_eq!(adjust_completions(zsh, "_ab-av1"), "_ab-av1");
}

#[test]
fn only_some_commands_keep_their_files() {
    assert!(CommandKind::SampleEncode.keep_temp_files(true));
    assert!(!CommandKind::SampleEncode.keep_temp_files(false));
    assert!(!CommandKind::Encode.keep_temp_files(true));
}

#[test]
fn verbosity_decides_what_is_printed() {
    let quiet = search_prints(Some(Level::Error));
    assert!(!quiet.samples);
    let loud = search_prints(Some(Level::Trace));
    assert!(loud.samples);
    assert!(auto_encode_prints(Some(Level::Trace)).runs);
}

#[test]
fn paths_are_taken_apart() {
    assert_eq!(path_file_name("/a/b.c.d").as_deref(), Some("b.c.d"));
    assert_eq!(path_extension("/a/b.c.d").as_deref(), Some("d"));
    assert_eq!(path_extension("/a/.hidden"), None);
    assert_eq!(path_parent("/a/b").as_deref(), Some("/a"));
    assert_eq!(path_parent("/"), None);
    assert_eq!(path_join("/a", "b"), "/a/b");
    assert!(path_is_under("/a/b", "/a"));
    assert!(!path_is_under("/ab", "/a"));
    assert!(!path_is_under("a/b", "/a"));
    assert!(!path_is_under("/a/b", "a"));
    for path in ["/a/b", "a/b", "/", ""] {
        assert!(path_is_under(path, ""));
        assert_eq!(
            path_is_under(path, "."),
            std::path::Path::new(path).starts_with("."),
            "{path}"
        );
    }
}
