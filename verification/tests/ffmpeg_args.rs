use ab_av1::command::args::encode::PixelFormat;
use ab_av1::command::args::vmaf::Vmaf;
use ab_av1::command::args::{ScoreArgs, Xpsnr};
use ab_av1::command::sample_encode::cache::{encode_cache_key, CacheInput, Key};
use ab_av1::command::sample_encode::result::ScoreKind;
use ab_av1::command::sample_encode::ScoringConfig;
use ab_av1::command::score::{score_command, score_text, xpsnr_lavfi};
use ab_av1::duration::Duration;
use ab_av1::ffmpeg::{
    copy_command, crf_arg, crf_value, decode_command, pre_extension_name, preset_arg, remove_arg,
    sample_file_name, Crf, EncodeTarget, FfmpegArgValues, FfmpegEncodeArgs,
};
use ab_av1::float::Single;

fn crf(x: f32) -> Crf {
    Crf::new(Single::from_bits(x.to_bits()), x.to_string(), x.to_string())
}

fn strings(list: &[&str]) -> Vec<String> {
    list.iter().map(|s| s.to_string()).collect()
}

fn encode_args(vcodec: &str, at: f32) -> FfmpegEncodeArgs {
    FfmpegEncodeArgs {
        input: "/tmp/vid.mkv".into(),
        vcodec: vcodec.into(),
        vfilter: None,
        pix_fmt: None,
        crf: crf(at),
        preset: None,
        output_args: vec![],
        input_args: vec![],
        video_only: false,
    }
}

fn key(args: &FfmpegEncodeArgs) -> Key {
    let input = CacheInput {
        sample: "vid.sample.mkv".into(),
        source_input: "/tmp/vid.mkv".into(),
        input_duration: Duration::from_secs(60),
        input_extension: Some("mkv".into()),
        input_size: 1_000_000,
        full_pass: false,
        dest_ext: "mkv".into(),
        svt_version: "1".into(),
    };
    let scoring = ScoringConfig::from_args(
        ScoreArgs { reference_vfilter: None },
        Vmaf::default(),
        false,
        Xpsnr::default(),
    );
    encode_cache_key(&input, args, &scoring)
}

#[test]
fn pre_extension_name_maps_codecs() {
    assert_eq!(pre_extension_name("libsvtav1"), "av1");
    assert_eq!(pre_extension_name("libvpx-vp9"), "vp9");
    assert_eq!(pre_extension_name("libx264"), "x264");
    assert_eq!(pre_extension_name("libaom-av1"), "av1");
    assert_eq!(pre_extension_name("libdav1d"), "av1");
    assert_eq!(pre_extension_name("svtav1"), "av1");
    assert_eq!(pre_extension_name("libvpx"), "vp9");
    assert_eq!(
        pre_extension_name("libaom-av1"),
        pre_extension_name("libsvtav1"),
        "libaom and libsvtav1 must share av1 suffix for cache filenames"
    );
}

#[test]
fn vcodec_arg_matrix() {
    for (codec, quality, preset, at) in [
        ("libsvtav1", "-crf", "-preset", 63.0f32),
        ("librav1e", "-qp", "-speed", 40.0),
        ("libx264", "-crf", "-preset", 32.0),
        ("hevc_videotoolbox", "-q:v", "-preset", 50.0),
    ] {
        assert_eq!(crf_arg(codec), quality);
        assert_eq!(preset_arg(codec), preset);
        let expected = at.min(if codec == "libsvtav1" { 63.0 } else { at });
        assert_eq!(crf_value(codec, &crf(at)), expected.to_string());
    }
}

#[test]
fn vcodec_arg_matrix_extended() {
    for (codec, preset, quality) in [
        ("libaom-av1", "-cpu-used", "-crf"),
        ("mpeg2video", "-preset", "-q"),
        ("h264_nvenc", "-preset", "-cq"),
        ("h264_vaapi", "-preset", "-q"),
        ("h264_qsv", "-preset", "-global_quality"),
    ] {
        assert_eq!(preset_arg(codec), preset);
        assert_eq!(crf_arg(codec), quality);
    }
}

#[test]
fn sample_encode_hash_stable_for_identical_args() {
    let mut args = encode_args("libsvtav1", 30.0);
    args.vfilter = Some("scale=1280:-1".into());
    args.preset = Some("8".into());
    assert_eq!(key(&args), key(&args));
}

#[test]
fn sample_encode_hash_differs_when_crf_changes() {
    let base = encode_args("libsvtav1", 30.0);
    let other = encode_args("libsvtav1", 31.0);
    assert_ne!(key(&base), key(&other));
}

#[test]
fn remove_arg_strips_first_matching_pair() {
    // duplicate flags should leave later pairs alone
    let mut args = strings(&["-preset", "8", "-preset", "6", "-crf", "30"]);
    remove_arg(&mut args, "-preset");
    assert_eq!(args, ["-preset", "6", "-crf", "30"]);
}

#[test]
fn remove_arg_strips_flag_and_value() {
    let mut args = strings(&["-preset", "8", "-crf", "30"]);
    remove_arg(&mut args, "-preset");
    assert_eq!(args, ["-crf", "30"]);
}

#[test]
fn remove_arg_preserves_value_when_it_matches_a_flag_name() {
    let mut args = strings(&["-preset", "-crf", "30"]);
    remove_arg(&mut args, "-preset");
    assert_eq!(args, ["-crf", "30"]);
}

#[test]
fn remove_arg_leaves_args_without_the_flag() {
    let mut args = strings(&["-crf", "30"]);
    remove_arg(&mut args, "-preset");
    assert_eq!(args, ["-crf", "30"]);
    let mut args = strings(&["-crf", "30", "-dn"]);
    remove_arg(&mut args, "-dn");
    assert_eq!(args, ["-crf", "30"]);
}

#[test]
fn sample_encode_hash_differs_when_extra_args_change() {
    let base = encode_args("libx264", 30.0);
    let mut with_output_args = encode_args("libx264", 30.0);
    with_output_args.output_args = strings(&["-g", "240"]);
    let mut with_input_args = encode_args("libx264", 30.0);
    with_input_args.input_args = strings(&["-ss", "12"]);

    assert_ne!(key(&base), key(&with_output_args));
    assert_ne!(key(&base), key(&with_input_args));
    assert_ne!(key(&with_output_args), key(&with_input_args));
}

#[test]
fn ffmpeg_arg_values_iterates_borrowed_arg_views() {
    let args = strings(&["-threads", "4"]);
    let spec = FfmpegArgValues::new(&args);

    let borrowed = spec.iter();

    assert_eq!(borrowed, vec!["-threads", "4"]);
    assert_eq!(spec.iter().len(), 2);
    assert!(
        std::ptr::eq(borrowed[0].as_ptr(), args[0].as_str().as_ptr()),
        "argument iteration must borrow existing storage"
    );
}

#[test]
fn ffmpeg_arg_values_iteration_does_not_allocate() {
    let args = strings(&["-threads", "4"]);
    let spec = FfmpegArgValues::new(&args);

    // walking by index hands out the stored text itself
    let mut total_len = 0;
    let mut i = 0;
    while let Some(arg) = spec.get(i) {
        assert!(std::ptr::eq(arg.as_ptr(), args[i].as_str().as_ptr()));
        total_len += arg.len();
        i += 1;
    }
    assert_eq!(i, spec.len());
    assert_eq!(total_len, 9);
}

#[test]
fn libsvtav1_crf_caps_above_ffmpeg_limit() {
    assert_eq!(crf_value("libsvtav1", &crf(70.0)), "63");
    assert_eq!(crf_value("libsvtav1", &crf(63.0)), "63");
    assert_eq!(crf_value("libsvtav1", &crf(62.75)), "62.75");
}

#[test]
fn sample_names_tell_the_encode() {
    let mut args = encode_args("libsvtav1", 30.25);
    args.input = "/tmp/x/vid.sample1.mkv".into();
    args.preset = Some("8".into());
    assert_eq!(
        sample_file_name(&args, "mkv").as_deref(),
        Some("vid.sample1.av1.crf30_25.8.mkv")
    );
    args.preset = None;
    assert_eq!(
        sample_file_name(&args, "mp4").as_deref(),
        Some("vid.sample1.av1.crf30_25.mp4")
    );
    args.input = "/".into();
    assert_eq!(sample_file_name(&args, "mp4"), None);
}

#[test]
fn sample_command_is_quiet_and_video_only() {
    let mut args = encode_args("libx264", 23.0);
    args.vfilter = Some("scale=1280:-1".into());
    args.pix_fmt = Some(PixelFormat::Yuv420p);
    args.preset = Some("fast".into());
    args.output_args = strings(&["-g", "240"]);
    args.input_args = strings(&["-hwaccel", "none"]);
    let cmd = args.encode_sample_command("/tmp/out.mkv");
    assert_eq!(cmd.program, "ffmpeg");
    let line = cmd.to_cmd_str();
    for part in [
        "-hwaccel none -i /tmp/vid.mkv",
        "-c:v libx264",
        "-crf 23",
        "-pix_fmt yuv420p",
        "-preset fast",
        "-vf scale=1280:-1",
        "-g 240",
        "-an",
        "/tmp/out.mkv",
    ] {
        assert!(line.contains(part), "{part} in {line}");
    }
}

#[test]
fn encode_command_handles_audio() {
    let args = encode_args("libsvtav1", 70.0);
    let target = |has_audio, audio_codec: Option<&str>, downmix_to_stereo| EncodeTarget {
        output: "out.mkv".into(),
        has_audio,
        audio_codec: audio_codec.map(|c| c.to_string()),
        downmix_to_stereo,
    };
    let downmixed = args.encode_command(&target(true, None, true)).args;
    assert!(downmixed.windows(2).any(|w| w[0] == "-ac" && w[1] == "2"), "{downmixed:?}");
    assert!(downmixed.windows(2).any(|w| w[0] == "-crf" && w[1] == "63"), "{downmixed:?}");
    assert_eq!(downmixed.last().map(String::as_str), Some("out.mkv"));
    let copied = args.encode_command(&target(true, Some("copy"), false)).args;
    assert!(copied.windows(2).any(|w| w[0] == "-c:a" && w[1] == "copy"), "{copied:?}");
    assert!(!copied.iter().any(|a| a == "-ac"));
}

#[test]
fn scores_are_calculated_and_read() {
    let cmd = score_command("ref.mkv", "dis.mkv", "[0:v]x", Some("24"));
    assert_eq!(cmd.program, "ffmpeg");
    assert_eq!(
        cmd.args.join(" "),
        "-nostdin -r 24 -i dis.mkv -r 24 -i ref.mkv -filter_complex [0:v]x -an -sn -dn -f null -"
    );
    let cmd = score_command("ref.mkv", "dis.mkv", "[0:v]x", None);
    assert_eq!(
        cmd.args.join(" "),
        "-nostdin -i dis.mkv -i ref.mkv -filter_complex [0:v]x -an -sn -dn -f null -"
    );
    let vmaf = "[Parsed_libvmaf_6 @ 0x55] VMAF score: 94.826380";
    assert_eq!(score_text(ScoreKind::Vmaf, vmaf).as_deref(), Some("94.826380"));
    assert_eq!(score_text(ScoreKind::Xpsnr, vmaf), None);
    let xpsnr = "XPSNR  y: 33.6547  u: 41.8741  v: 42.2571  (minimum: 33.6547)";
    assert_eq!(score_text(ScoreKind::Xpsnr, xpsnr).as_deref(), Some("33.6547"));
    assert_eq!(score_text(ScoreKind::Vmaf, xpsnr), None);
    assert_eq!(score_text(ScoreKind::Xpsnr, "minimum: 1"), None);
    assert_eq!(
        xpsnr_lavfi(Some("scale=1:2"), Some(PixelFormat::Yuv420p)),
        "[0:v]format=yuv420p,setpts=PTS-STARTPTS,settb=AVTB[dis];\
         [1:v]format=yuv420p,scale=1:2,setpts=PTS-STARTPTS,settb=AVTB[ref];\
         [dis][ref]xpsnr=stats_file=-"
    );
    assert_eq!(
        xpsnr_lavfi(None, None),
        "[0:v]setpts=PTS-STARTPTS,settb=AVTB[dis];\
         [1:v]setpts=PTS-STARTPTS,settb=AVTB[ref];[dis][ref]xpsnr=stats_file=-"
    );
}

#[test]
fn files_are_decoded_and_copied() {
    assert_eq!(decode_command("a.mkv").args, ["-nostdin", "-i", "a.mkv", "-f", "null", "-"]);
    assert_eq!(
        copy_command("in.mkv", "12.5", 480, "out.mkv").args.join(" "),
        "-nostdin -y -ss 12.5 -i in.mkv -frames:v 480 -c:v copy -an -sn -dn out.mkv"
    );
}
