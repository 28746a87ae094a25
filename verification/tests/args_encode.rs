use ab_av1::command::args::encode::{
    collect_passthrough_args, parse_enc_arg, parse_svt_arg, try_parse_fps_vfilter, Encode,
    EncodeArgsError, Encoder, FilterFps, FpsSource, KeyInterval, KeyintPlan, PassthroughArg,
    PixelFormat,
};
use ab_av1::command::rules::ValidationError;
use ab_av1::duration::Duration;
use ab_av1::ffmpeg::{Crf, FfmpegEncodeArgs};
use ab_av1::ffprobe::{split_frame_rate, Ffprobe, ProbeError, RateText};
use ab_av1::float::{Double, Single};
use ab_av1::span::span_adds_up;

fn single(x: f32) -> Single {
    Single::from_bits(x.to_bits())
}

fn double(x: f64) -> Double {
    Double::from_bits(x.to_bits())
}

fn value(x: Single) -> f32 {
    f32::from_bits(x.bits)
}

fn crf(x: f32) -> Crf {
    Crf::new(single(x), x.to_string(), x.to_string())
}

fn strings(list: &[&str]) -> Vec<String> {
    list.iter().map(|s| s.to_string()).collect()
}

fn parse_frame_rate(rate: &str) -> Option<f64> {
    match split_frame_rate(rate) {
        RateText::Fraction(x, y) => {
            let x: f64 = x.parse().ok()?;
            let y: f64 = y.parse().ok()?;
            if x <= 0.0 || y <= 0.0 {
                None
            } else {
                Some(x / y)
            }
        }
        RateText::Number(n) => n
            .parse()
            .ok()
            .filter(|f: &f64| f.is_finite() && *f > 0.0),
    }
}

fn filter_fps(vfilter: &str) -> Option<f64> {
    match try_parse_fps_vfilter(vfilter)? {
        FilterFps::Ratio(x, y) => Some(f64::from(x) / f64::from(y)),
        FilterFps::Text(rate) => parse_frame_rate(&rate),
    }
}

fn keyint_number(enc: &Encode, probe: &Ffprobe) -> Result<Option<i32>, ProbeError> {
    let filter = enc.vfilter.as_deref().and_then(filter_fps);
    match enc.keyint(probe, filter.is_some()) {
        KeyintPlan::Unset => Ok(None),
        KeyintPlan::Frames(n) => Ok(Some(n)),
        KeyintPlan::Scaled { span, fps } => {
            let fps = match (fps, filter) {
                (FpsSource::Filter, Some(fps)) => fps,
                _ => match &probe.fps {
                    Ok(fps) => f64::from_bits(fps.bits),
                    Err(e) => return Err(e.copy()),
                },
            };
            let secs = span.as_nanos() as f64 / 1e9;
            Ok(Some((secs * fps).round() as i32))
        }
    }
}

fn ffmpeg_args(enc: &Encode, at: f32, probe: &Ffprobe) -> Result<FfmpegEncodeArgs, EncodeArgsError> {
    enc.to_ffmpeg_args(&crf(at), keyint_number(enc, probe))
}

fn test_probe(duration_secs: u64, fps: f64) -> Ffprobe {
    Ffprobe {
        duration: Ok(Duration::from_secs(duration_secs)),
        has_audio: true,
        max_audio_channels: Some(2),
        fps: Ok(double(fps)),
        resolution: Some((1280, 720)),
        is_image: false,
        pix_fmt: None,
    }
}

fn encode(encoder: &str, input: &str) -> Encode {
    Encode {
        encoder: Encoder::for_test(encoder),
        input: input.to_string(),
        vfilter: None,
        preset: None,
        pix_format: None,
        keyint: None,
        scd: None,
        svt_args: vec![],
        enc_args: vec![],
        enc_input_args: vec![],
    }
}

fn has_pair(args: &[String], flag: &str, val: &str) -> bool {
    args.windows(2).any(|w| w[0] == flag && w[1] == val)
}

fn value_of<'a>(args: &'a [String], flag: &str) -> &'a str {
    let i = args.iter().position(|a| a == flag).expect("missing flag");
    args.get(i + 1).expect("missing value")
}

#[test]
fn pixel_format_order() {
    assert!(PixelFormat::Yuv420p < PixelFormat::Yuv420p10le);
    assert!(PixelFormat::Yuv420p10le < PixelFormat::Yuv422p10le);
    assert!(PixelFormat::Yuv422p10le < PixelFormat::Yuv444p10le);
}

#[test]
fn test_try_parse_fps_vfilter() {
    let fps = filter_fps("scale=1280:-1, fps=24, transpose=1").unwrap();
    assert!((fps - 24.0).abs() < f64::EPSILON, "{fps:?}");

    let fps = filter_fps("scale=1280:-1, fps=ntsc, transpose=1").unwrap();
    assert!((fps - 30000.0 / 1001.0).abs() < f64::EPSILON, "{fps:?}");
}

#[test]
fn fps_vfilter_names_and_absence() {
    assert_eq!(try_parse_fps_vfilter("fps=pal"), Some(FilterFps::Ratio(25, 1)));
    assert_eq!(try_parse_fps_vfilter("fps=film"), Some(FilterFps::Ratio(24, 1)));
    assert_eq!(
        try_parse_fps_vfilter("fps= ntsc_film ,scale=1:1"),
        Some(FilterFps::Ratio(24000, 1001))
    );
    assert_eq!(try_parse_fps_vfilter("scale=1280:-1"), None);
    assert_eq!(try_parse_fps_vfilter(""), None);
    assert_eq!(
        try_parse_fps_vfilter("fps=30000/1001"),
        Some(FilterFps::Text("30000/1001".into()))
    );
}

#[test]
fn keyinterval_from_str_parses_frames_and_duration() {
    assert_eq!(KeyInterval::from_str("300").unwrap(), KeyInterval::Frames(300));
    assert_eq!(
        KeyInterval::from_str("10s").unwrap(),
        KeyInterval::Duration(Duration::from_secs(10))
    );
}

#[test]
fn keyinterval_reads_back_what_it_writes() {
    let all = [
        KeyInterval::Frames(300),
        KeyInterval::Frames(-12),
        KeyInterval::Frames(i32::MIN),
        KeyInterval::Duration(Duration::from_secs(3_723)),
        KeyInterval::Duration(Duration::from_millis(1_500)),
        KeyInterval::Duration(Duration::from_secs(0)),
    ];
    for interval in all {
        assert_eq!(KeyInterval::from_str(&interval.to_text()), Ok(interval));
    }
}

/// Should use keyint & scd defaults for >3m inputs.
#[test]
fn svtav1_to_ffmpeg_args_default_over_3m() {
    let mut enc = encode("libsvtav1", "vid.mp4");
    enc.vfilter = Some("scale=320:-1,fps=film".into());
    enc.svt_args = strings(&["film-grain=30"]);
    let mut probe = test_probe(300, 30.0);
    probe.max_audio_channels = None;

    let FfmpegEncodeArgs {
        input,
        vcodec,
        vfilter,
        pix_fmt,
        crf,
        preset,
        output_args,
        input_args,
        video_only,
    } = ffmpeg_args(&enc, 32.0, &probe).expect("to_ffmpeg_args");

    assert_eq!(&*vcodec, "libsvtav1");
    assert_eq!(input, enc.input);
    assert_eq!(vfilter.as_deref(), Some("scale=320:-1,fps=film"));
    assert_eq!(value(crf.value), 32.0);
    assert_eq!(preset, Some("8".into()));
    assert_eq!(pix_fmt, Some(PixelFormat::Yuv420p10le));
    assert!(!video_only);

    assert!(
        has_pair(&output_args, "-g", "240"),
        "expected -g in {output_args:?}"
    );
    assert_eq!(
        value_of(&output_args, "-svtav1-params"),
        "scd=1:crf=32:film-grain=30"
    );
    assert!(input_args.is_empty());
}

#[test]
fn svtav1_to_ffmpeg_args_default_under_3m() {
    let mut enc = encode("libsvtav1", "vid.mp4");
    enc.preset = Some("7".into());
    enc.pix_format = Some(PixelFormat::Yuv420p);
    let mut probe = test_probe(179, 24.0);
    probe.max_audio_channels = None;

    let FfmpegEncodeArgs {
        input,
        vcodec,
        vfilter,
        pix_fmt,
        crf,
        preset,
        output_args,
        input_args,
        video_only,
    } = ffmpeg_args(&enc, 32.0, &probe).expect("to_ffmpeg_args");

    assert_eq!(&*vcodec, "libsvtav1");
    assert_eq!(input, enc.input);
    assert_eq!(vfilter, None);
    assert_eq!(value(crf.value), 32.0);
    assert_eq!(preset, Some("7".into()));
    assert_eq!(pix_fmt, Some(PixelFormat::Yuv420p));
    assert!(!video_only);

    assert!(
        !output_args.iter().any(|a| a == "-g"),
        "unexpected -g in {output_args:?}"
    );
    assert_eq!(value_of(&output_args, "-svtav1-params"), "scd=0:crf=32");
    assert!(input_args.is_empty());
}

#[test]
fn svtav1_default_keyint_begins_behind_3m() {
    let enc = encode("libsvtav1", "vid.mp4");
    assert_eq!(keyint_number(&enc, &test_probe(180, 24.0)), Ok(None));
    assert_eq!(keyint_number(&enc, &test_probe(181, 24.0)), Ok(Some(240)));
    let args = ffmpeg_args(&enc, 32.0, &test_probe(180, 24.0)).expect("3m");
    assert_eq!(args.output_args, ["-svtav1-params", "scd=0:crf=32"]);
    let args = ffmpeg_args(&enc, 32.0, &test_probe(181, 24.0)).expect("over 3m");
    assert_eq!(args.output_args, ["-svtav1-params", "scd=1:crf=32", "-g", "240"]);
}

#[test]
fn svtav1_scene_detection_can_be_set() {
    let mut enc = encode("libsvtav1", "vid.mp4");
    enc.scd = Some(false);
    let args = ffmpeg_args(&enc, 32.0, &test_probe(300, 24.0)).expect("scd off");
    assert_eq!(args.output_args, ["-svtav1-params", "scd=0:crf=32", "-g", "240"]);
    enc.scd = Some(true);
    let args = ffmpeg_args(&enc, 32.0, &test_probe(60, 24.0)).expect("scd on");
    assert_eq!(args.output_args, ["-svtav1-params", "scd=1:crf=32"]);
    // a chosen key interval leaves it off
    enc.scd = None;
    enc.keyint = Some(KeyInterval::Frames(99));
    let args = ffmpeg_args(&enc, 32.0, &test_probe(300, 24.0)).expect("keyint");
    assert_eq!(args.output_args, ["-svtav1-params", "scd=0:crf=32", "-g", "99"]);
}

#[test]
fn only_reserved_arguments_are_refused() {
    let mut enc = encode("libx265", "vid.mp4");
    enc.enc_args = strings(&["-svtav1-params=tune=0", "-x265-params=lossless=1"]);
    let args = ffmpeg_args(&enc, 20.0, &test_probe(60, 24.0)).expect("not reserved");
    assert_eq!(value_of(&args.output_args, "-svtav1-params"), "-svtav1-params=tune=0");
    assert!(has_pair(&args.output_args, "-x265-params", "lossless=1"));
    enc.enc_args = strings(&["-crf=20"]);
    assert!(ffmpeg_args(&enc, 20.0, &test_probe(60, 24.0)).is_err());
    enc.enc_args = vec![];
    enc.enc_input_args = strings(&["-i=other.mp4"]);
    assert!(ffmpeg_args(&enc, 20.0, &test_probe(60, 24.0)).is_err());
    enc.enc_input_args = vec![];
    enc.svt_args = strings(&["film-grain=30"]);
    assert!(ffmpeg_args(&enc, 20.0, &test_probe(60, 24.0)).is_err());
}

#[test]
fn pixel_format_opt_max() {
    assert_eq!(
        PixelFormat::opt_max(Some(PixelFormat::Yuv420p), Some(PixelFormat::Yuv444p10le)),
        Some(PixelFormat::Yuv444p10le)
    );
    assert_eq!(
        PixelFormat::opt_max(None, Some(PixelFormat::Yuv420p10le)),
        Some(PixelFormat::Yuv420p10le)
    );
    assert_eq!(
        PixelFormat::opt_max(Some(PixelFormat::Yuv422p10le), None),
        Some(PixelFormat::Yuv422p10le)
    );
    assert_eq!(PixelFormat::opt_max(None, None), None);
}

#[test]
fn parse_svt_arg_rejects_reserved_keys() {
    let err = parse_svt_arg("crf=32").expect_err("crf reserved");
    assert!(err.message("").contains("crf"));
}

#[test]
fn parse_svt_arg_keeps_other_keys() {
    assert_eq!(parse_svt_arg("film-grain=8").as_deref(), Ok("film-grain=8"));
    assert_eq!(
        parse_svt_arg("preset=8"),
        Err(ValidationError::ReservedSvtArg { key: "preset" })
    );
}

#[test]
fn parse_enc_arg_adds_leading_dash() {
    let arg = parse_enc_arg("x265-params=lossless=1").expect("parse");
    assert_eq!(arg, "-x265-params=lossless=1");
}

#[test]
fn parse_enc_arg_rejects_svt_params() {
    assert_eq!(parse_enc_arg("-dn").as_deref(), Ok("-dn"));
    assert_eq!(
        parse_enc_arg("svtav1-params=scd=1"),
        Err(ValidationError::Svtav1ParamsInEncoderArg)
    );
}

#[test]
fn passthrough_arg_values_split_once_and_keep_hyphen_values() {
    assert_eq!(
        PassthroughArg::parse("-metadata=title=a=b").values(),
        ["-metadata", "title=a=b"]
    );
    assert_eq!(PassthroughArg::parse("-profile=-1").values(), ["-profile", "-1"]);
    assert_eq!(PassthroughArg::parse("-dn").values(), ["-dn"]);
}

#[test]
fn passthrough_args_are_collected_in_order() {
    assert_eq!(
        collect_passthrough_args(&strings(&["-a=1", "-b", "-c=2=3"])),
        ["-a", "1", "-b", "-c", "2=3"]
    );
    assert!(PassthroughArg::parse("-svtav1-params=x").is_svtav1_params());
    assert!(!PassthroughArg::parse("-x265-params=x").is_svtav1_params());
}

#[test]
fn libvpx_vp9_default_crf_increment_matches_docs() {
    let enc = Encoder::for_test("libvpx-vp9");
    assert_eq!(
        value(enc.default_crf_increment()),
        0.1,
        "libvpx-vp9 should use 0.1 crf increment per Args docs"
    );
}

#[test]
fn hevc_videotoolbox_default_max_crf_matches_encoder() {
    let enc = Encoder::for_test("hevc_videotoolbox");
    assert_eq!(value(enc.default_max_crf()), 100.0);
    assert_eq!(value(enc.default_min_crf()), 10.0);
}

#[test]
fn to_ffmpeg_args_libvpx_vp9_constant_quality_default() {
    let enc = encode("libvpx-vp9", "vid.webm");
    let args = ffmpeg_args(&enc, 32.0, &test_probe(120, 24.0)).expect("to_ffmpeg_args");
    assert!(
        has_pair(&args.output_args, "-b:v", "0"),
        "libvpx-vp9 needs -b:v 0 for CRF mode: {:?}",
        args.output_args
    );
}

#[test]
fn encoder_defaults_matrix() {
    let rows: [(&str, f32, f32, f32); 6] = [
        ("libx264", 0.1, 10.0, 46.0),
        ("libx265", 0.1, 10.0, 46.0),
        ("libsvtav1", 0.25, 5.0, 70.0),
        ("libvpx-vp9", 0.1, 10.0, 55.0),
        ("mpeg2video", 1.0, 2.0, 30.0),
        ("librav1e", 1.0, 10.0, 255.0),
    ];
    for (name, increment, min_crf, max_crf) in rows {
        let enc = Encoder::for_test(name);
        assert_eq!(value(enc.default_crf_increment()), increment, "{name}");
        assert_eq!(value(enc.default_min_crf()), min_crf, "{name}");
        assert_eq!(value(enc.default_max_crf()), max_crf, "{name}");
    }
}

#[test]
fn encoder_from_str_matrix() {
    assert_eq!(Encoder::from_str("svt-av1").as_str(), "libsvtav1");
    assert_eq!(Encoder::from_str("libaom-av1").as_str(), "libaom-av1");
}

#[test]
fn encode_hint_includes_non_default_options() {
    let mut enc = encode("libx264", "clip mkv");
    enc.vfilter = Some("scale=1280:-1".into());
    enc.preset = Some("fast".into());
    enc.pix_format = Some(PixelFormat::Yuv420p);
    enc.keyint = Some(KeyInterval::Frames(300));
    enc.scd = Some(true);
    enc.enc_args = strings(&["x265-params=lossless=1"]);
    enc.enc_input_args = strings(&["hwaccel=vaapi"]);
    let hint = enc.encode_hint(&crf(32.5));
    assert!(hint.contains("-e libx264"));
    assert!(hint.contains("--preset fast"));
    assert!(hint.contains("--keyint 300"));
    assert!(hint.contains("--scd true"));
    assert!(hint.contains("--pix-format yuv420p"));
    assert!(hint.contains("--vfilter"));
    assert!(hint.contains("--enc x265-params=lossless=1"));
    assert!(hint.contains("--enc-input hwaccel=vaapi"));
    // the input is quoted for the shell, the filter as a string literal
    assert!(hint.contains("-i 'clip mkv' --crf 32.5"), "{hint}");
    assert!(hint.contains("--vfilter \"scale=1280:-1\""), "{hint}");
}

#[test]
fn encode_hint_omits_default_svtav1_encoder_flag() {
    let mut enc = encode("libsvtav1", "vid.mp4");
    enc.svt_args = strings(&["film-grain=8"]);
    let hint = enc.encode_hint(&crf(32.0));
    assert!(!hint.contains("-e libsvtav1"));
    assert!(hint.contains("--svt film-grain=8"));
}

#[test]
fn encode_hint_exact() {
    let enc = encode("libsvtav1", "it's!.mp4");
    assert_eq!(
        enc.encode_hint(&crf(25.0)),
        "ab-av1 encode -i 'it'\\''s'\\!'.mp4' --crf 25"
    );
}

#[test]
fn keyinterval_display_formats_frames_and_duration() {
    assert_eq!(KeyInterval::Frames(300).to_text(), "300");
    assert_eq!(KeyInterval::Duration(Duration::from_secs(10)).to_text(), "10s");
}

#[test]
fn keyinterval_parse_error_reports_both_failures() {
    let msg = KeyInterval::from_str("not-valid").expect_err("invalid keyint");
    assert!(msg.contains("frames:"));
    assert!(msg.contains("duration:"));
    assert_eq!(
        msg,
        "frames: invalid digit found in string, duration: expected number at 0"
    );
}

#[test]
fn keyinterval_frames_variant_passthrough() {
    let mut enc = encode("libsvtav1", "vid.mp4");
    enc.keyint = Some(KeyInterval::Frames(240));
    assert_eq!(
        keyint_number(&enc, &test_probe(60, 30.0)).expect("frames"),
        Some(240)
    );
}

#[test]
fn keyint_plan_prefers_filter_and_needs_a_rate() {
    let mut enc = encode("libsvtav1", "vid.mp4");
    let ten = Duration::from_secs(10);
    assert_eq!(
        enc.keyint(&test_probe(181, 30.0), true),
        KeyintPlan::Scaled { span: ten, fps: FpsSource::Filter }
    );
    assert_eq!(
        enc.keyint(&test_probe(181, 30.0), false),
        KeyintPlan::Scaled { span: ten, fps: FpsSource::Probe }
    );
    let mut probe = test_probe(181, 30.0);
    probe.fps = Err(ProbeError::new("no rate".into()));
    assert_eq!(enc.keyint(&probe, false), KeyintPlan::Unset);
    probe.duration = Err(ProbeError::new("no duration".into()));
    assert_eq!(enc.keyint(&probe, true), KeyintPlan::Unset);

    enc.keyint = Some(KeyInterval::Duration(Duration::from_secs(5)));
    let err = ffmpeg_args(&enc, 30.0, &probe).expect_err("no rate");
    assert_eq!(err, EncodeArgsError::Probe(ProbeError::new("no rate".into())));
    assert_eq!(err.message(), "no rate");
}

#[test]
fn to_ffmpeg_args_rejects_svt_on_non_svtav1() {
    let mut enc = encode("libx264", "vid.mp4");
    enc.svt_args = strings(&["film-grain=8"]);
    let err = ffmpeg_args(&enc, 32.0, &test_probe(120, 24.0)).expect_err("svt on x264");
    assert!(err.message().contains("--svt may only be used with svt-av1"));
}

#[test]
fn to_ffmpeg_args_libaom_defaults() {
    let enc = encode("libaom-av1", "vid.mkv");
    let args = ffmpeg_args(&enc, 30.0, &test_probe(120, 24.0)).expect("to_ffmpeg_args");
    assert_eq!(args.pix_fmt, Some(PixelFormat::Yuv420p10le));
    assert!(has_pair(&args.output_args, "-b:v", "0"));
    assert!(args.output_args.iter().all(|a| a != "-svtav1-params"));
}

#[test]
fn to_ffmpeg_args_qsv_defaults() {
    let enc = encode("av1_qsv", "vid.mp4");
    let args = ffmpeg_args(&enc, 28.0, &test_probe(120, 24.0)).expect("to_ffmpeg_args");
    for (flag, val) in [
        ("-look_ahead", "1"),
        ("-extbrc", "1"),
        ("-look_ahead_depth", "40"),
    ] {
        assert!(
            has_pair(&args.output_args, flag, val),
            "missing {flag} in {:?}",
            args.output_args
        );
    }
}

#[test]
fn to_ffmpeg_args_vaapi_input_defaults() {
    let enc = encode("h264_vaapi", "vid.mp4");
    let args = ffmpeg_args(&enc, 28.0, &test_probe(120, 24.0)).expect("to_ffmpeg_args");
    assert!(has_pair(&args.input_args, "-hwaccel", "vaapi"));
    assert!(has_pair(&args.input_args, "-hwaccel_output_format", "vaapi"));
}

#[test]
fn to_ffmpeg_args_vulkan_input_defaults() {
    let enc = encode("av1_vulkan", "vid.mp4");
    let args = ffmpeg_args(&enc, 28.0, &test_probe(120, 24.0)).expect("to_ffmpeg_args");
    assert!(has_pair(&args.input_args, "-hwaccel", "vulkan"));
}

#[test]
fn to_ffmpeg_args_merges_enc_svtav1_params() {
    let mut enc = encode("libsvtav1", "vid.mp4");
    enc.svt_args = strings(&["film-grain=8"]);
    enc.enc_args = strings(&["svtav1-params=tune=0"]);
    let args = ffmpeg_args(&enc, 32.0, &test_probe(60, 24.0)).expect("to_ffmpeg_args");
    let svt = value_of(&args.output_args, "-svtav1-params");
    assert!(svt.contains("tune=0"));
    assert!(svt.contains("film-grain=8"));
    assert!(svt.contains("crf=32"));
}

#[test]
fn to_ffmpeg_args_enc_input_none_disables_vaapi_defaults() {
    let mut enc = encode("h264_vaapi", "vid.mp4");
    enc.enc_input_args = strings(&["-hwaccel=none", "-hwaccel_output_format=none"]);
    let args = ffmpeg_args(&enc, 28.0, &test_probe(120, 24.0)).expect("to_ffmpeg_args");
    assert!(
        !args.input_args.iter().any(|a| a == "-hwaccel"),
        "hwaccel defaults should be omitted: {:?}",
        args.input_args
    );
}

#[test]
fn to_ffmpeg_args_rejects_reserved_output_and_input_args() {
    let mut enc_output = encode("libx264", "vid.mp4");
    enc_output.enc_args = strings(&["-crf=32"]);
    let mut enc_input = encode("libx264", "vid.mp4");
    enc_input.enc_input_args = strings(&["-preset=fast"]);

    let output_err =
        ffmpeg_args(&enc_output, 32.0, &test_probe(120, 24.0)).expect_err("reserved -crf");
    let input_err =
        ffmpeg_args(&enc_input, 32.0, &test_probe(120, 24.0)).expect_err("reserved -preset");

    assert!(output_err.message().contains("`-crf` not allowed"));
    assert!(input_err.message().contains("`-preset` not allowed"));
}

#[test]
fn to_ffmpeg_args_explicit_keyint_with_vfilter_fps() {
    let mut enc = encode("libsvtav1", "vid.mp4");
    enc.vfilter = Some("fps=24".into());
    enc.keyint = Some(KeyInterval::Duration(Duration::from_secs(5)));
    let args = ffmpeg_args(&enc, 32.0, &test_probe(60, 30.0)).expect("to_ffmpeg_args");
    // vfilter fps=24 wins over probe fps=30 → 5s * 24 = 120
    assert!(has_pair(&args.output_args, "-g", "120"));
}

#[test]
fn to_ffmpeg_args_scd_explicit_true_without_default_keyint() {
    let mut enc = encode("libsvtav1", "vid.mp4");
    enc.scd = Some(true);
    let args = ffmpeg_args(&enc, 32.0, &test_probe(60, 24.0)).expect("to_ffmpeg_args");
    let svt = value_of(&args.output_args, "-svtav1-params");
    assert!(svt.starts_with("scd=1:"));
}

#[test]
fn encoder_high_crf_means_hq_videotoolbox() {
    assert!(Encoder::for_test("hevc_videotoolbox").high_crf_means_hq());
    assert!(!Encoder::for_test("libx264").high_crf_means_hq());
}

#[test]
fn encoder_default_image_ext_x264() {
    assert_eq!(Encoder::for_test("libx264").default_image_ext(), "264");
}

#[test]
fn pixel_format_as_str_yuv420p() {
    assert_eq!(PixelFormat::Yuv420p.as_str(), "yuv420p");
}

#[test]
fn pixel_format_names_read_back() {
    for f in [
        PixelFormat::Yuv420p,
        PixelFormat::Yuv420p10le,
        PixelFormat::Yuv422p10le,
        PixelFormat::Yuv444p10le,
    ] {
        assert_eq!(PixelFormat::try_from_str(f.as_str()), Ok(f));
        assert_eq!(PixelFormat::try_from_str(&f.as_str().to_uppercase()), Ok(f));
    }
    assert_eq!(PixelFormat::try_from_str("rgb24"), Err(()));
}

#[test]
fn parse_frame_rate_valid() {
    for (input, expected) in [
        ("30000/1001", 30000.0 / 1001.0),
        ("24/1", 24.0),
        ("24", 24.0),
        ("29.97", 29.97),
        ("24 / 1", 24.0),
    ] {
        let fps = parse_frame_rate(input).expect("valid frame rate");
        assert!((fps - expected).abs() < 1e-9, "got {fps}, expected {expected}");
    }
}

#[test]
fn parse_frame_rate_invalid() {
    for input in ["0/1", "1/0", "-1/24", "", "not-a-rate", "NaN"] {
        assert_eq!(parse_frame_rate(input), None, "{input}");
    }
}

#[test]
fn key_intervals_with_many_digits_are_read() {
    // one number with a unit, however long
    assert!(span_adds_up("1000000000000ns"));
    let interval = KeyInterval::from_str("1000000000000ns");
    assert_eq!(interval, Ok(KeyInterval::Duration(Duration::from_secs(1000))));
    // several small numbers
    assert!(span_adds_up("10h 30m 15s 500ms 250us"));
    let interval = KeyInterval::from_str("10h 30m 15s 500ms 250us");
    assert_eq!(interval, Ok(KeyInterval::Duration(Duration::new(37_815, 500_250_000))));
    // a number that is large for its small unit only
    assert!(span_adds_up("1s 600000000000ns"));
    let interval = KeyInterval::from_str("1s 600000000000ns");
    assert_eq!(interval, Ok(KeyInterval::Duration(Duration::from_secs(601))));
    // digits behind a decimal point, of a number that others follow
    assert!(span_adds_up("1.500000000000y 1s"));
    let interval = KeyInterval::from_str("1.500000000000y 1s");
    let span = Duration::from_secs(31_557_600 / 2 * 3 + 1);
    assert_eq!(interval, Ok(KeyInterval::Duration(span)));
    // numbers that go too far at once
    assert!(span_adds_up("18446744073709551615s 2s"));
    assert!(KeyInterval::from_str("18446744073709551615s 2s").is_err());
    // the largest number of seconds and a second of nanoseconds
    assert!(!span_adds_up("18446744073709551615s 1000000000ns"));
    assert!(!span_adds_up("18446744073709551615s 400ms 0.01m s"));
}

#[test]
fn key_interval_of_a_span() {
    let span = Duration::from_secs(10);
    let interval = KeyInterval::from_span("no frames", Ok(span));
    assert_eq!(interval, Ok(KeyInterval::Duration(span)));
    let err = KeyInterval::from_span("no frames", Err("no span".into()));
    assert_eq!(err, Err("frames: no frames, duration: no span".into()));
}

#[test]
fn encode_hint_of_written_parts() {
    let mut enc = encode("libx265", "vid.mkv");
    enc.scd = Some(true);
    let keyint = Some("10s".to_string());
    let vfilter = Some("'scale=1280:-1'".to_string());
    assert_eq!(
        enc.hint_with(&crf(25.0), "in.mkv", &keyint, &vfilter),
        "ab-av1 encode -e libx265 -i in.mkv --crf 25 --keyint 10s --scd true \
         --vfilter 'scale=1280:-1'"
    );
}
