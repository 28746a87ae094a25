use ab_av1::command::args::encode::{Encoder, PixelFormat};
use ab_av1::command::args::{FrameRateOverride, Sample, ScoreArgs, ScoreConfig, Xpsnr, XpsnrConfig};
use ab_av1::duration::Duration;
use ab_av1::ffprobe::{ffprobe_error_fallback, Ffprobe};
use ab_av1::float::{Double, Single};
use std::collections::hash_map::DefaultHasher;
use std::hash::{Hash, Hasher};

fn single(x: f32) -> Single {
    Single::from_bits(x.to_bits())
}

fn sample_args(samples: Option<u64>, min_samples: Option<u64>, sample_every: Duration) -> Sample {
    Sample {
        samples,
        sample_every,
        min_samples,
        sample_duration: Duration::from_secs(20),
        keep: false,
        temp_dir: None,
        extension: None,
    }
}

#[test]
fn sample_count_from_sample_every() {
    for (secs, every, expected) in [
        (600, 12 * 60, 1),
        (25 * 60, 12 * 60, 3),
        (30, 12 * 60, 1),
        (24 * 60, 12 * 60, 2),
    ] {
        let args = sample_args(None, None, Duration::from_secs(every));
        assert_eq!(args.sample_count(Duration::from_secs(secs)), expected);
    }
}

#[test]
fn sample_count_samples_override_wins() {
    let args = sample_args(Some(7), None, Duration::from_secs(60));
    let count = args.sample_count(Duration::from_secs(3600));
    assert_eq!(count, 7);
}

#[test]
fn sample_count_respects_min_samples() {
    let args = sample_args(None, Some(5), Duration::from_secs(60 * 60));
    let count = args.sample_count(Duration::from_secs(60));
    assert_eq!(count, 5);
}

#[test]
fn sample_count_grows_with_the_input() {
    let args = sample_args(None, None, Duration::from_secs(7));
    let mut last = 0;
    for secs in (10..3600).step_by(37) {
        let count = args.sample_count(Duration::from_secs(secs));
        assert!(count >= last && count >= 1);
        last = count;
    }
}

#[test]
fn set_extension_from_input_uses_image_ext() {
    let mut args = sample_args(None, None, Duration::from_secs(60));
    let encoder = Encoder::for_test("libsvtav1");
    let probe = Ffprobe {
        duration: Ok(Duration::zero()),
        has_audio: false,
        max_audio_channels: None,
        fps: Ok(Double::from_bits(24.0f64.to_bits())),
        resolution: None,
        is_image: true,
        pix_fmt: None,
    };
    args.set_extension_from_input("photo.png", &encoder, &probe);
    assert_eq!(args.extension.as_deref(), Some("avif"));
}

#[test]
fn set_extension_from_input_uses_input_container_on_probe_failure() {
    let mut args = sample_args(None, None, Duration::from_secs(60));
    let encoder = Encoder::for_test("libsvtav1");
    let probe = ffprobe_error_fallback(false, "ffprobe: missing");
    args.set_extension_from_input("clip.webm", &encoder, &probe);
    assert_eq!(
        args.extension.as_deref(),
        Some("webm"),
        "probe failure must not block default extension from input path"
    );
}

#[test]
fn set_extension_from_input_uses_mkv_fallback_for_unknown_extension_on_probe_failure() {
    let mut args = sample_args(None, None, Duration::from_secs(60));
    let encoder = Encoder::for_test("libsvtav1");
    let probe = ffprobe_error_fallback(false, "ffprobe: missing");
    args.set_extension_from_input("clip.unknown", &encoder, &probe);
    assert_eq!(args.extension.as_deref(), Some("mkv"));
}

#[test]
fn sample_count_min_samples_wins_over_short_duration() {
    // 30s input / 60s sample_every => 1 sample, but min_samples=3
    let args = sample_args(None, Some(3), Duration::from_secs(60));
    let count = args.sample_count(Duration::from_secs(30));
    assert_eq!(count, 3);
}

#[test]
fn set_extension_from_output_without_extension_falls_back_to_input_container() {
    let mut args = sample_args(None, None, Duration::from_secs(60));
    args.set_extension_from_output("/out/encoded");
    assert_eq!(
        args.extension.as_deref(),
        Some("mkv"),
        "extensionless output path must still yield a sample container extension"
    );
}

#[test]
fn set_extension_from_output_uses_path_extension() {
    let mut args = sample_args(None, None, Duration::from_secs(60));
    args.set_extension_from_output("out/sample.mkv");
    assert_eq!(args.extension.as_deref(), Some("mkv"));
}

#[test]
fn sample_count_honors_sub_second_sample_every() {
    let args = sample_args(None, None, Duration::from_millis(500));
    let count = args.sample_count(Duration::from_secs(10));
    assert_eq!(
        count, 20,
        "10s / 500ms should yield 20 samples, not duration/1s"
    );
}

#[test]
fn sample_count_rejects_zero_samples_override() {
    let args = sample_args(Some(0), None, Duration::from_secs(60));
    assert_eq!(
        args.sample_count(Duration::from_secs(3600)),
        0,
        "explicit --samples 0 must not be silently raised"
    );
}

#[test]
fn xpsnr_fps_filter() {
    for (fps, expected) in [(60.0, Some(single(60.0))), (0.0, None), (-1.0, None)] {
        let xpsnr = Xpsnr {
            xpsnr_fps: FrameRateOverride::new(single(fps)),
            ..Default::default()
        };
        assert_eq!(xpsnr.fps(), expected);
        assert_eq!(XpsnrConfig::from_args(xpsnr).fps(), expected);
    }
}

#[test]
fn xpsnr_default_matches_cli_defaults() {
    let xpsnr = Xpsnr::default();
    assert_eq!(xpsnr.fps(), Some(single(60.0)));
    assert_eq!(xpsnr.xpsnr_pix_format, None);
}

#[test]
fn frame_rate_override_is_a_checked_newtype() {
    assert_eq!(FrameRateOverride::new(single(60.0)).fps(), Some(single(60.0)));
    assert_eq!(FrameRateOverride::new(single(0.0)).fps(), None);
    assert_eq!(FrameRateOverride::new(single(-1.0)).fps(), None);
}

#[test]
fn xpsnr_hash_includes_pix_format() {
    let a = Xpsnr {
        xpsnr_pix_format: Some(PixelFormat::Yuv420p),
        ..Default::default()
    };
    let b = Xpsnr {
        xpsnr_pix_format: Some(PixelFormat::Yuv420p10le),
        ..Default::default()
    };

    let mut hash_a = DefaultHasher::new();
    let mut hash_b = DefaultHasher::new();
    a.hash(&mut hash_a);
    b.hash(&mut hash_b);

    assert_ne!(
        hash_a.finish(),
        hash_b.finish(),
        "xpsnr_pix_format must affect Xpsnr hash"
    );
}

#[test]
fn score_config_keeps_the_reference_filter() {
    let config = ScoreConfig::from_args(ScoreArgs { reference_vfilter: Some("scale=1:2".into()) });
    assert_eq!(config.reference_vfilter.as_deref(), Some("scale=1:2"));
}
