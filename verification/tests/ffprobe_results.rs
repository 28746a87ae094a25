use ab_av1::command::args::encode::PixelFormat;
use ab_av1::duration::Duration;
use ab_av1::ffprobe::{
    checked_nframes, ffprobe_error_fallback, frame_rate_texts, is_image, Ffprobe, ProbeError,
    ProbeStream, HEADER_LEN,
};
use ab_av1::float::Double;

fn double(x: f64) -> Double {
    Double::from_bits(x.to_bits())
}

fn probe_with(fps: Result<f64, ProbeError>, duration: Result<Duration, ProbeError>) -> Ffprobe {
    Ffprobe {
        duration,
        fps: fps.map(double),
        has_audio: false,
        max_audio_channels: None,
        resolution: None,
        is_image: false,
        pix_fmt: None,
    }
}

fn nframes(probe: &Ffprobe) -> Result<u64, ProbeError> {
    let (fps, duration) = probe.nframes_factors()?;
    let frames = (f64::from_bits(fps.bits) * (duration.as_nanos() as f64 / 1e9)).round();
    checked_nframes(double(frames), frames as u64, &frames.to_string())
}

fn stream(codec_type: &str, channels: Option<i64>, size: Option<(i64, i64)>) -> ProbeStream {
    ProbeStream {
        codec_type: Some(codec_type.into()),
        channels,
        width: size.map(|s| s.0),
        height: size.map(|s| s.1),
        pix_fmt: size.map(|_| "yuv420p".into()),
        avg_frame_rate: "24/1".into(),
        r_frame_rate: "25/1".into(),
    }
}

#[test]
fn nframes_computes_from_fps_and_duration() {
    let probe = probe_with(Ok(30.0), Ok(Duration::from_secs(10)));
    assert_eq!(nframes(&probe).expect("nframes"), 300);
}

#[test]
fn nframes_propagates_fps_error() {
    let err = ProbeError::new("bad fps".into());
    let probe = probe_with(Err(err.copy()), Ok(Duration::from_secs(10)));
    assert_eq!(nframes(&probe), Err(err));
}

#[test]
fn nframes_rejects_non_positive_frame_count() {
    let probe = probe_with(Ok(0.001), Ok(Duration::from_millis(1)));
    assert!(nframes(&probe).is_err());
}

#[test]
fn pixel_format_parsing() {
    let mut probe = probe_with(Ok(24.0), Ok(Duration::from_secs(1)));

    probe.pix_fmt = Some("yuv420p10le".into());
    assert_eq!(probe.pixel_format(), Some(PixelFormat::Yuv420p10le));

    probe.pix_fmt = Some("rgb24".into());
    assert_eq!(probe.pixel_format(), None);

    probe.pix_fmt = Some("YUV420P".into());
    assert_eq!(probe.pixel_format(), Some(PixelFormat::Yuv420p));
}

#[test]
fn ffprobe_error_fallback_behavior() {
    let image_probe = ffprobe_error_fallback(true, "probe failed");
    let video_probe = ffprobe_error_fallback(false, "missing ffprobe");

    // image detection preserved on failure
    assert!(image_probe.is_image);
    assert!(!image_probe.has_audio);
    assert!(image_probe.duration.is_err());
    assert!(image_probe.fps.is_err());

    // conservative audio metadata when not an image
    assert!(!video_probe.has_audio);
    assert_eq!(video_probe.max_audio_channels, None);
}

#[test]
fn probe_preserves_image_detection_when_ffprobe_fails() {
    let image = is_image(&[0xFF, 0xD8, 0xFF, 0xD9]);
    let probe = ffprobe_error_fallback(image, "forced ffprobe failure (test fixture)");
    assert!(
        probe.is_image,
        "header-based image detection must survive ffprobe failure"
    );
    assert!(!probe.has_audio);
    assert!(probe.duration.is_err(), "ffprobe failure must propagate to duration");
    assert!(probe.fps.is_err(), "ffprobe failure must propagate to fps");
    assert!(
        probe.duration.unwrap_err().message().contains("ffprobe"),
        "error should mention ffprobe"
    );
}

#[test]
fn probe_error_display_and_from_anyhow() {
    let direct = ProbeError::new("bad probe".into());
    assert_eq!(direct.message(), "bad probe");
    let from_err = ProbeError::new(anyhow::Error::msg("oops").to_string());
    assert!(from_err.message().contains("oops"));
}

#[test]
fn nframes_error_and_edge_cases() {
    // duration error propagates
    let duration_err = ProbeError::new("bad duration".into());
    let probe = probe_with(Ok(24.0), Err(duration_err.copy()));
    assert_eq!(nframes(&probe), Err(duration_err));

    // zero duration rejected
    let probe = probe_with(Ok(24.0), Ok(Duration::zero()));
    assert!(nframes(&probe).is_err());

    // infinite fps rejected rather than wrapping
    let probe = probe_with(Ok(f64::INFINITY), Ok(Duration::from_secs(10)));
    assert!(nframes(&probe).is_err());
}

#[test]
fn probe_webp_header_detects_image_on_ffprobe_failure() {
    let webp = b"RIFF\x24\x00\x00\x00WEBPVP8 \x18\x00\x00\x00\x2f\x01\x00\x9d\x01\x2a\x01\x00\x01\x00\x02\x00\x34\x25\xa4\x00\x03\x70\x00\xfe\xfb\xfd\xc0\x00";
    let probe = ffprobe_error_fallback(is_image(webp), "forced ffprobe failure (test fixture)");
    assert!(
        probe.is_image,
        "webp header must be detected when ffprobe fails"
    );
}

#[test]
fn only_the_header_tells_an_image() {
    assert!(is_image(b"GIF89a\x01\x00\x01\x00\x80\x00\x00"));
    assert!(!is_image(b"\x1aE\xdf\xa3matroska"));
    assert!(!is_image(b""));
    let mut long = vec![0xFF, 0xD8, 0xFF, 0xD9];
    long.resize(2 * HEADER_LEN, 0);
    assert!(is_image(&long));
}

#[test]
fn probe_reads_zero_duration_from_minimal_gif() {
    let gif = b"GIF89a\x01\x00\x01\x00\x80\x00\x00\xff\xff\xff\x00\x00\x00,\
\x00\x00\x00\x00\x01\x00\x01\x00\x00\x02\x02D\x01\x00;";
    let probe = Ffprobe::from_streams(
        &[stream("video", None, Some((1, 1)))],
        Ok(Duration::zero()),
        Ok(double(10.0)),
        is_image(gif),
    );
    assert!(probe.is_image);
    assert_eq!(probe.duration.ok(), Some(Duration::zero()));
}

#[test]
fn streams_give_audio_and_size() {
    let streams = [
        stream("audio", Some(2), None),
        stream("video", None, Some((1920, 1080))),
        stream("audio", Some(6), None),
        stream("audio", Some(1), None),
    ];
    let probe =
        Ffprobe::from_streams(&streams, Ok(Duration::from_secs(3)), Ok(double(24.0)), false);
    assert!(probe.has_audio);
    assert_eq!(probe.max_audio_channels, Some(6));
    assert_eq!(probe.resolution, Some((1920, 1080)));
    assert_eq!(probe.pixel_format(), Some(PixelFormat::Yuv420p));
    assert_eq!(frame_rate_texts(&streams), Ok(("24/1", "25/1")));

    let silent = [stream("subtitle", Some(9), None)];
    let probe = Ffprobe::from_streams(&silent, Ok(Duration::zero()), Ok(double(1.0)), false);
    assert!(!probe.has_audio);
    assert_eq!(probe.max_audio_channels, None);
    assert_eq!(probe.resolution, None);
    assert_eq!(
        frame_rate_texts(&silent),
        Err(ProbeError::new("no video stream found".into()))
    );
}
