use ab_av1::command::args::encode::PixelFormat;
use ab_av1::command::args::vmaf::{Vmaf, VmafArg};
use ab_av1::command::args::{FrameRateOverride, ScoreArgs, Xpsnr};
use ab_av1::command::sample_encode::cache::{
    cached_encode, encode_cache_key, sample_encode_cache_path, CacheInput, Key,
};
use ab_av1::command::sample_encode::plan::{
    effective_sample_duration, FrameCount, FrameCountError, FrameRate, FrameRateError, SampleCount,
    SampleGridError, SamplePlan, SamplePlanError, Timing,
};
use ab_av1::command::sample_encode::result::{
    all_from_cache, encoded_percent_size, estimate_encode_size_by_duration,
    estimate_encode_size_by_file_percent, estimate_encode_time, finite_scores, human_result,
    json_result, JsonNumber,
    total_encode_time, EncodeResult, Estimate, FileEstimate, Fraction, Means, Output, ScoreKind,
    ShownResult,
};
use ab_av1::command::sample_encode::{
    check_sample_size, sample_args, Next, Phase, Progress, SampleRun, ScoringConfig, Status, Update,
    Work,
};
use ab_av1::duration::Duration;
use ab_av1::ffmpeg::{Crf, FfmpegEncodeArgs};
use ab_av1::float::{Double, Single};
use ab_av1::style::Tone;

fn single(x: f32) -> Single {
    Single::from_bits(x.to_bits())
}

fn double(x: f64) -> Double {
    Double::from_bits(x.to_bits())
}

fn value(x: Single) -> f32 {
    f32::from_bits(x.bits)
}

fn secs_f64(d: Duration) -> f64 {
    std::time::Duration::new(d.as_secs(), d.subsec_nanos()).as_secs_f64()
}

fn from_std(d: std::time::Duration) -> Duration {
    Duration::new(d.as_secs(), d.subsec_nanos())
}

fn encode_result(
    sample_size: u64,
    encoded_size: u64,
    sample_duration_secs: u64,
    vmaf: Option<f32>,
    xpsnr: Option<f32>,
) -> EncodeResult {
    EncodeResult {
        sample_size,
        encoded_size,
        vmaf_score: vmaf.map(single),
        xpsnr_score: xpsnr.map(single),
        encode_time: Duration::from_secs(sample_duration_secs),
        sample_duration: Duration::from_secs(sample_duration_secs),
        from_cache: false,
    }
}

fn percent(results: &[EncodeResult]) -> f64 {
    encoded_percent_size(results).map_or(0.0, |f| f.part as f64 * 100.0 / f.whole as f64)
}

fn mean(results: &[EncodeResult], kind: ScoreKind) -> Option<f32> {
    let scores = finite_scores(results, kind);
    if scores.is_empty() {
        None
    } else {
        Some(scores.iter().map(|s| value(*s)).sum::<f32>() / scores.len() as f32)
    }
}

fn size_estimate(results: &[EncodeResult], input: Duration, single_full_pass: bool) -> u64 {
    match estimate_encode_size_by_duration(results, single_full_pass) {
        Estimate::Exact(n) => n,
        Estimate::ByDuration(d) => {
            let sum: f64 = results.iter().map(|r| r.encoded_size as f64).sum();
            (sum * (secs_f64(input) / secs_f64(d))).round() as u64
        }
    }
}

fn time_estimate(results: &[EncodeResult], input: Duration, single_full_pass: bool) -> Duration {
    match estimate_encode_time(results, single_full_pass) {
        Estimate::Exact(t) => t,
        Estimate::ByDuration(d) => {
            let time = total_encode_time(results);
            let time = std::time::Duration::new(time.as_secs(), time.subsec_nanos());
            from_std(time.mul_f64(secs_f64(input) / secs_f64(d)))
        }
    }
}

fn timing(input: Duration, fps: f64, requested: Duration) -> Timing {
    if fps.is_nan() || fps <= 0.0 {
        return Timing { one_frame: Duration::zero(), sample_frames: 0, full_pass_from: input };
    }
    let one_frame = from_std(std::time::Duration::from_secs_f64(1.0 / fps));
    let effective = effective_sample_duration(requested, one_frame);
    let whole = std::time::Duration::new(input.as_secs(), input.subsec_nanos());
    Timing {
        one_frame,
        sample_frames: (secs_f64(effective) * fps).round() as u64,
        full_pass_from: from_std(whole.mul_f64(0.85)),
    }
}

fn try_plan(
    input: Duration,
    fps: f64,
    count: u64,
    requested: Duration,
    is_image: bool,
) -> Result<SamplePlan, SamplePlanError> {
    SamplePlan::try_new(
        input,
        double(fps),
        SampleCount::new(count),
        requested,
        is_image,
        timing(input, fps, requested),
    )
}

fn valid_sample_plan(
    input: Duration,
    fps: f64,
    count: u64,
    requested: Duration,
    is_image: bool,
) -> SamplePlan {
    try_plan(input, fps, count, requested, is_image).expect("sample plan inputs should be valid")
}

fn frames_of(plan: SamplePlan) -> Vec<u32> {
    plan.windows().into_iter().map(|w| w.frames().get()).collect()
}

fn scoring(vmaf: Vmaf, xpsnr: bool, xpsnr_opts: Xpsnr) -> ScoringConfig {
    ScoringConfig::from_args(ScoreArgs { reference_vfilter: None }, vmaf, xpsnr, xpsnr_opts)
}

fn default_scoring(use_xpsnr: bool) -> ScoringConfig {
    scoring(Vmaf::default(), use_xpsnr, Xpsnr::default())
}

fn minimal_enc_args(input: &str, crf: f32) -> FfmpegEncodeArgs {
    FfmpegEncodeArgs {
        input: input.into(),
        vcodec: "libsvtav1".into(),
        vfilter: None,
        pix_fmt: None,
        crf: Crf::new(single(crf), crf.to_string(), crf.to_string()),
        preset: None,
        output_args: vec![],
        input_args: vec![],
        video_only: false,
    }
}

fn standard_key_input() -> CacheInput {
    CacheInput {
        sample: "/tmp/.ab-av1-abc/sample0+20f.mkv".into(),
        source_input: "/movies/a/clip.mkv".into(),
        input_duration: Duration::from_secs(3600),
        input_extension: Some("mkv".into()),
        input_size: 1_000_000,
        full_pass: false,
        dest_ext: "mkv".into(),
        svt_version: "SVT-AV1".into(),
    }
}

fn standard_key(input: &CacheInput) -> Key {
    let enc = minimal_enc_args("/movies/a/clip.mkv", 30.0);
    encode_cache_key(input, &enc, &default_scoring(false))
}

#[test]
fn sample_encode_config_lowers_score_args() {
    let config = ScoringConfig::from_args(
        ScoreArgs { reference_vfilter: Some("scale=1280:-1".into()) },
        Vmaf { vmaf_args: vec![VmafArg::new("n_subsample=4")], ..Default::default() },
        true,
        Xpsnr { xpsnr_fps: FrameRateOverride::new(single(0.0)), ..Default::default() },
    );

    assert_eq!(config.score.reference_vfilter.as_deref(), Some("scale=1280:-1"));
    assert!(config.xpsnr);
    assert_eq!(config.xpsnr_opts.fps(), None);
    assert_eq!(
        config.vmaf.vmaf_args.iter().map(|a| a.as_str()).collect::<Vec<_>>(),
        ["n_subsample=4"]
    );
}

#[test]
fn scoring_chooses_filter_format_and_vmaf() {
    assert!(default_scoring(false).do_vmaf());
    assert!(!default_scoring(true).do_vmaf());
    let both = Vmaf { and_vmaf: Some(true), ..Default::default() };
    assert!(scoring(both, true, Xpsnr::default()).do_vmaf());
    let config = default_scoring(true);
    assert_eq!(config.reference_filter(&None), None);
    assert_eq!(config.reference_filter(&Some("a".into())).as_deref(), Some("a"));
    assert_eq!(
        config.xpsnr_format(Some(PixelFormat::Yuv420p), Some(PixelFormat::Yuv420p10le)),
        Some(PixelFormat::Yuv420p10le)
    );
}

#[test]
fn sample_frame_calculation_does_not_truncate_large_products() {
    let sample_duration = Duration::from_secs(100_000);
    let fps = 50_000.0;

    let product = secs_f64(sample_duration) * fps;
    let frames = (product.round() as u64).max(1);

    assert!(
        frames as f64 >= product * 0.99,
        "duration*fps product {product} must not truncate via u32 cast (got {frames})"
    );
    // what does not fit is refused
    assert_eq!(FrameCount::try_new(frames), Err(FrameCountError::Overflow));
}

#[test]
fn estimate_encode_predictions_finite_for_zero_sample_duration() {
    let size_results = [encode_result(1000, 500, 0, Some(90.0), None)];
    let time_results = [encode_result(1000, 500, 0, None, Some(90.0))];
    let input_duration = Duration::from_secs(100);

    let size = size_estimate(&size_results, input_duration, false);
    let estimate = time_estimate(&time_results, input_duration, false);

    assert!(
        size < u64::MAX,
        "size prediction must be finite for zero sample duration"
    );
    assert!(
        estimate < Duration::from_secs(u64::MAX / 2),
        "time prediction must be finite for zero sample duration"
    );
}

#[test]
fn encoded_percent_size_empty_results_returns_zero() {
    assert_eq!(
        percent(&[]),
        0.0,
        "empty results should not report 100% encoded size"
    );
}

#[test]
fn sample_encode_sample_plan_try_new_rejects_huge_sample_grid() {
    assert_eq!(
        try_plan(
            Duration::from_secs(100),
            30.0,
            u64::from(u32::MAX),
            Duration::from_nanos(1),
            false
        ),
        Err(SamplePlanError::SampleGrid(SampleGridError::TooManySamples))
    );
}

#[test]
fn sample_encode_sample_plan_full_pass_for_images() {
    let plan = valid_sample_plan(Duration::from_secs(5), 24.0, 4, Duration::from_secs(1), true);

    assert!(plan.full_pass());
    assert_eq!(plan.sample_count().get(), 1);
    assert_eq!(plan.sample_duration(), Duration::from_secs(5));
    assert_eq!(plan.windows(), Vec::new());
}

#[test]
fn sample_encode_sample_plan_uses_one_frame_minimum_duration() {
    let plan = valid_sample_plan(Duration::from_secs(10), 25.0, 2, Duration::from_millis(1), false);

    assert!(!plan.full_pass());
    assert_eq!(plan.sample_duration(), Duration::from_millis(40));
    assert_eq!(frames_of(plan), vec![1, 1]);
}

#[test]
fn sample_encode_frame_rate_rejects_non_positive_and_nan_values() {
    assert!(FrameRate::try_new(double(0.0)).is_err());
    assert!(FrameRate::try_new(double(-24.0)).is_err());
    assert!(FrameRate::try_new(double(f64::NAN)).is_err());
}

#[test]
fn sample_encode_frame_rate_is_a_local_checked_f64_newtype() {
    let rate = FrameRate::try_new(double(29.97)).expect("valid frame rate");

    assert_eq!(rate.frames_per_second(), double(29.97));
}

#[test]
fn sample_encode_sample_plan_try_new_rejects_invalid_frame_rate() {
    assert_eq!(
        try_plan(Duration::from_secs(10), f64::NAN, 2, Duration::from_secs(1), false),
        Err(SamplePlanError::FrameRate(FrameRateError::Invalid))
    );
}

#[test]
fn sample_encode_sample_plan_try_new_rejects_frame_count_overflow() {
    assert_eq!(
        try_plan(
            Duration::from_secs(1_000_000),
            50_000.0,
            2,
            Duration::from_secs(100_000),
            false
        ),
        Err(SamplePlanError::FrameCount(FrameCountError::Overflow))
    );
}

#[test]
fn sample_encode_frame_rate_converts_duration_to_frame_count() {
    let frames = |d: Duration| {
        let rounded = (secs_f64(d) * 29.97).round() as u64;
        FrameCount::try_new(rounded).expect("valid frame count").get()
    };

    assert_eq!(frames(Duration::from_secs(10)), 300);
    assert_eq!(frames(Duration::from_nanos(1)), 1);
}

#[test]
fn sample_encode_sample_plan_yields_existing_sample_grid() {
    let plan = valid_sample_plan(Duration::from_secs(100), 30.0, 3, Duration::from_secs(10), false);

    let windows = plan.windows();
    assert_eq!(
        windows.iter().map(|w| w.index().get()).collect::<Vec<_>>(),
        vec![0, 1, 2]
    );
    assert_eq!(
        windows.iter().map(|w| w.start()).collect::<Vec<_>>(),
        vec![
            Duration::from_millis(17_500),
            Duration::from_secs(45),
            Duration::from_millis(72_500)
        ]
    );
    assert_eq!(frames_of(plan), vec![300, 300, 300]);
}

#[test]
fn plan_frame_rate_rejects_non_positive_and_nan_values() {
    for rate in [0.0, -24.0, f64::NAN] {
        assert_eq!(FrameRate::try_new(double(rate)), Err(FrameRateError::Invalid));
    }
}

#[test]
fn plan_frame_rate_is_a_local_checked_f64_newtype() {
    let rate = FrameRate::try_new(double(29.97)).expect("valid frame rate");
    assert!(1.0 / f64::from_bits(rate.frames_per_second().bits) > 0.0);
}

#[test]
fn plan_sample_plan_try_new_rejects_invalid_frame_rate() {
    assert_eq!(
        try_plan(Duration::from_secs(10), 0.0, 3, Duration::from_secs(1), false),
        Err(SamplePlanError::FrameRate(FrameRateError::Invalid))
    );
}

#[test]
fn plan_sample_plan_try_new_rejects_frame_count_overflow() {
    assert_eq!(
        try_plan(
            Duration::from_secs(1_000_000),
            1_000_000.0,
            2,
            Duration::from_secs(100_000),
            false
        ),
        Err(SamplePlanError::FrameCount(FrameCountError::Overflow))
    );
}

#[test]
fn plan_frame_rate_converts_duration_to_frame_count() {
    let frames = FrameCount::try_new((10.0f64 * 29.97).round() as u64).expect("frame count");
    assert!(frames.get() > 0);
}

#[test]
fn plan_sample_plan_full_pass_for_images() {
    let plan = valid_sample_plan(Duration::from_secs(100), 30.0, 3, Duration::from_secs(10), true);

    assert!(plan.full_pass());
    assert_eq!(plan.sample_count().get(), 1);
    assert_eq!(plan.sample_duration(), Duration::from_secs(100));
}

#[test]
fn plan_sample_plan_uses_one_frame_minimum_duration() {
    let plan = valid_sample_plan(Duration::from_secs(100), 60.0, 3, Duration::from_millis(1), false);

    let one_frame = from_std(std::time::Duration::from_secs_f64(1.0 / 60.0));
    assert!(plan.sample_duration() >= one_frame);
}

#[test]
fn sample_plan_full_pass_uses_effective_one_frame_duration() {
    let plan = valid_sample_plan(Duration::from_secs(10), 0.1, 2, Duration::from_nanos(1), false);

    assert!(plan.full_pass());
    assert_eq!(plan.sample_count().get(), 1);
    assert_eq!(plan.sample_duration(), Duration::from_secs(10));
}

#[test]
fn plan_sample_plan_yields_existing_sample_grid() {
    let plan = valid_sample_plan(Duration::from_secs(100), 30.0, 3, Duration::from_secs(10), false);

    let windows = plan.windows();
    assert_eq!(
        windows.iter().map(|w| w.index().get()).collect::<Vec<_>>(),
        vec![0, 1, 2]
    );
    assert_eq!(
        windows.iter().map(|w| w.start()).collect::<Vec<_>>(),
        vec![
            Duration::from_millis(17_500),
            Duration::from_secs(45),
            Duration::from_millis(72_500)
        ]
    );
    assert_eq!(
        windows.iter().map(|w| w.frames().get()).collect::<Vec<_>>(),
        vec![300, 300, 300]
    );
}

#[test]
fn plan_sample_plan_try_new_rejects_huge_sample_grid() {
    assert_eq!(
        try_plan(
            Duration::from_secs(100),
            30.0,
            u64::from(u32::MAX),
            Duration::from_nanos(1),
            false
        ),
        Err(SamplePlanError::SampleGrid(SampleGridError::TooManySamples))
    );
}

#[test]
fn sample_count_monotonic_in_duration() {
    let mut last = 0;
    for secs in 2..200 {
        let plan = valid_sample_plan(Duration::from_secs(secs), 30.0, 3, Duration::from_secs(10), false);
        assert!(plan.sample_count().get() >= last);
        last = plan.sample_count().get();
    }
    assert_eq!(last, 3);
}

#[test]
fn plan_errors_have_messages() {
    for err in [
        SamplePlanError::FrameRate(FrameRateError::Invalid),
        SamplePlanError::FrameCount(FrameCountError::Overflow),
        SamplePlanError::SampleGrid(SampleGridError::TooManySamples),
    ] {
        assert!(!err.message().is_empty());
    }
}

#[test]
fn mean_scores_ignore_nan_values() {
    let vmaf_results = [
        encode_result(1000, 500, 10, Some(f32::NAN), None),
        encode_result(1000, 500, 10, Some(90.0), None),
    ];
    let xpsnr_results = [
        encode_result(1000, 500, 10, None, Some(f32::NAN)),
        encode_result(1000, 500, 10, None, Some(88.0)),
    ];

    assert_eq!(
        mean(&vmaf_results, ScoreKind::Vmaf),
        Some(90.0),
        "NaN vmaf scores must not poison the reported mean"
    );
    assert_eq!(
        mean(&xpsnr_results, ScoreKind::Xpsnr),
        Some(88.0),
        "NaN xpsnr scores must not poison the reported mean"
    );
}

#[test]
fn mean_vmaf_score_all_nan_returns_none() {
    let results = [
        encode_result(1000, 500, 10, Some(f32::NAN), None),
        encode_result(1000, 500, 10, Some(f32::NAN), None),
    ];

    assert_eq!(
        mean(&results, ScoreKind::Vmaf),
        None,
        "all-NaN vmaf scores should yield no mean"
    );
}

#[test]
fn attempt_percentages_finite_when_sample_size_zero() {
    let result = encode_result(0, 500, 10, None, None);
    assert_eq!(result.size_ratio(), None);
    let percent = result
        .size_ratio()
        .map_or(0.0, |f| 100.0 * f.part as f32 / f.whole as f32);
    assert!(
        percent.is_finite(),
        "attempt/log attempt percent must be finite when sample_size is zero, got {percent}"
    );
}

#[test]
fn output_single_score_absent_has_no_silent_defaults() {
    let output = Output {
        vmaf_score: None,
        xpsnr_score: None,
        predicted_encode_size: 0,
        encode_percent: double(0.0),
        predicted_encode_time: Duration::zero(),
        from_cache: false,
    };

    assert!(
        value(output.single_score()).is_nan(),
        "single_score must not default to 0.0 when both scores are absent"
    );
    assert_eq!(
        output.single_score_kind(),
        ScoreKind::Vmaf,
        "single_score_kind must not default to Xpsnr when both scores are absent"
    );
}

#[test]
fn output_single_score_kind_matrix() {
    for (vmaf, xpsnr, expected, score) in [
        (Some(70.0), None, ScoreKind::Vmaf, 70.0),
        (None, Some(92.0), ScoreKind::Xpsnr, 92.0),
        (Some(70.0), Some(92.0), ScoreKind::Vmaf, 70.0),
    ] {
        let output = Output {
            vmaf_score: vmaf.map(single),
            xpsnr_score: xpsnr.map(single),
            predicted_encode_size: 0,
            encode_percent: double(0.0),
            predicted_encode_time: Duration::zero(),
            from_cache: false,
        };
        assert_eq!(output.single_score_kind(), expected);
        assert_eq!(output.single_score(), single(score));
    }
}

#[test]
fn estimate_encode_time_preserves_subseconds_when_scaled_above_one_second() {
    // 600ms sample encode scaled 2× → 1.2s predicted; must not truncate to 1s
    let mut result = encode_result(1000, 500, 0, None, Some(90.0));
    result.encode_time = Duration::from_millis(600);
    result.sample_duration = Duration::from_millis(600);

    let estimate = time_estimate(&[result], Duration::from_millis(1200), false);

    assert_eq!(
        estimate,
        Duration::from_millis(1200),
        "scaled encode time must retain subsecond precision"
    );
}

#[test]
fn encoded_percent_size_with_zero_sample_size_is_finite() {
    let percent = percent(&[encode_result(0, 500, 10, Some(90.0), None)]);

    assert!(
        percent.is_finite(),
        "encoded percent must be finite when sample_size is zero, got {percent}"
    );
}

#[test]
fn encoded_percent_size_averages_multiple_samples() {
    let results = [
        encode_result(1000, 500, 10, Some(90.0), None),
        encode_result(1000, 600, 10, Some(92.0), None),
    ];

    assert!((percent(&results) - 55.0).abs() < f64::EPSILON);
    assert_eq!(
        encoded_percent_size(&results),
        Some(Fraction { part: 1100, whole: 2000 })
    );
}

#[test]
fn mean_scores_average_present_values() {
    let results = [
        encode_result(1000, 500, 10, Some(90.0), Some(88.0)),
        encode_result(1000, 500, 10, Some(94.0), Some(92.0)),
    ];

    assert_eq!(mean(&results, ScoreKind::Vmaf), Some(92.0));
    assert_eq!(mean(&results, ScoreKind::Xpsnr), Some(90.0));
}

#[test]
fn mean_scores_average_only_samples_with_scores() {
    // mixed cache/legacy rows where only some samples have scores
    let vmaf_results = [
        encode_result(1000, 500, 10, Some(90.0), None),
        encode_result(1000, 500, 10, None, None),
    ];
    let xpsnr_results = [
        encode_result(1000, 500, 10, None, Some(88.0)),
        encode_result(1000, 500, 10, None, Some(92.0)),
        encode_result(1000, 500, 10, None, None),
    ];

    assert_eq!(
        mean(&vmaf_results, ScoreKind::Vmaf),
        Some(90.0),
        "expected vmaf mean of present scores only"
    );
    assert_eq!(
        mean(&xpsnr_results, ScoreKind::Xpsnr),
        Some(90.0),
        "expected xpsnr mean of present scores only"
    );
}

#[test]
fn estimate_encode_size_scales_by_duration_ratio() {
    let results = [encode_result(1000, 500, 10, Some(90.0), None)];

    // 500 bytes per 10s sample → 5000 for 100s input
    assert_eq!(size_estimate(&results, Duration::from_secs(100), false), 5000);
}

#[test]
fn estimate_encode_time_scales_and_truncates_to_seconds() {
    let results = [
        encode_result(1000, 500, 10, None, Some(90.0)),
        encode_result(1000, 500, 10, None, Some(91.0)),
    ];

    // 20s total sample encode time scaled 5× → 100s
    assert_eq!(
        time_estimate(&results, Duration::from_secs(100), false),
        Duration::from_secs(100)
    );
}

#[test]
fn single_full_pass_prediction_uses_first_sample_only() {
    let results = [
        encode_result(1000, 400, 10, Some(90.0), None),
        encode_result(1000, 900, 10, Some(95.0), None),
    ];
    let input_duration = Duration::from_secs(3600);

    assert_eq!(size_estimate(&results, input_duration, true), 400);
    assert_eq!(
        time_estimate(&results, input_duration, true),
        Duration::from_secs(10)
    );
    assert_eq!(
        estimate_encode_size_by_file_percent(&results, true),
        FileEstimate::Exact(400)
    );
    assert_eq!(
        estimate_encode_size_by_file_percent(&results, false),
        FileEstimate::OfFile(Fraction { part: 1300, whole: 2000 })
    );
}

#[test]
fn outputs_take_the_lesser_size() {
    let mut results = [encode_result(1000, 400, 10, Some(90.0), None)];
    let means = |by_duration, by_percent| Means {
        vmaf_score: Some(single(90.0)),
        xpsnr_score: None,
        size_by_duration: by_duration,
        size_by_file_percent: by_percent,
        encode_percent: double(40.0),
        encode_time: Duration::from_secs(10),
    };
    assert_eq!(Output::new(&results, means(5, 7)).predicted_encode_size, 5);
    assert_eq!(Output::new(&results, means(7, 5)).predicted_encode_size, 5);
    assert!(!all_from_cache(&results));
    results[0].from_cache = true;
    assert!(Output::new(&results, means(7, 5)).from_cache);
}

// ---- the cache ----

#[test]
fn distinct_source_inputs_do_not_share_cache_keys_ab_kgc_3() {
    let mut other = standard_key_input();
    other.source_input = "/movies/b/clip.mkv".into();

    assert_ne!(
        standard_key(&standard_key_input()),
        standard_key(&other),
        "different source inputs must not share cache keys"
    );
}

#[test]
fn identical_work_reuses_cache_key_ab_kgc_3() {
    let key = standard_key(&standard_key_input());
    assert_eq!(
        key,
        standard_key(&standard_key_input()),
        "identical work must produce stable cache keys"
    );
    let hex = key.to_hex();
    assert_eq!(hex.len(), 64);
    assert!(hex.chars().all(|c| matches!(c, '0'..='9' | 'a'..='f')), "{hex}");
}

#[test]
fn missing_cache_dir_returns_actionable_error_ab_kgc_12() {
    let message = sample_encode_cache_path(None).unwrap_err();

    assert!(
        message.contains("cache"),
        "error should mention cache: {message}"
    );
    assert!(
        message.contains("XDG_CACHE_HOME") || message.contains("no-cache"),
        "error should mention workaround: {message}"
    );
    let path = sample_encode_cache_path(Some("/home/me/.cache")).expect("path");
    assert!(path.starts_with("/home/me/.cache/ab-av1"), "{path}");
}

#[test]
fn encode_cache_key_varies_with_crf_full_pass_and_duration() {
    let input = standard_key_input();
    let key_at = |crf: f32| {
        let enc = minimal_enc_args("/movies/a/clip.mkv", crf);
        encode_cache_key(&input, &enc, &default_scoring(false))
    };

    assert_ne!(key_at(30.0), key_at(31.0), "crf change must alter cache key");
    assert_ne!(key_at(30.0), key_at(30.5), "fractional crf must alter cache key");

    let mut full_pass = standard_key_input();
    full_pass.full_pass = true;
    assert_ne!(standard_key(&input), standard_key(&full_pass));

    let timed = |secs: u64| {
        let mut input = standard_key_input();
        input.input_duration = Duration::from_secs(secs);
        standard_key(&input)
    };
    assert_ne!(timed(100), timed(200));
}

#[test]
fn xpsnr_pix_format_alters_cache_key() {
    let enc = minimal_enc_args("/movies/a/clip.mkv", 30.0);
    let key_for = |format: PixelFormat| {
        let xpsnr = Xpsnr { xpsnr_pix_format: Some(format), ..Default::default() };
        encode_cache_key(&standard_key_input(), &enc, &scoring(Vmaf::default(), true, xpsnr))
    };

    assert_ne!(
        key_for(PixelFormat::Yuv420p),
        key_for(PixelFormat::Yuv420p10le),
        "xpsnr_pix_format must be part of the cache key"
    );
}

#[test]
fn xpsnr_fps_alters_cache_key() {
    let enc = minimal_enc_args("/movies/a/clip.mkv", 30.0);
    let key_for = |fps: f32| {
        let xpsnr = Xpsnr {
            xpsnr_fps: FrameRateOverride::new(single(fps)),
            xpsnr_pix_format: None,
        };
        encode_cache_key(&standard_key_input(), &enc, &scoring(Vmaf::default(), true, xpsnr))
    };

    assert_ne!(
        key_for(60.0),
        key_for(30.0),
        "xpsnr_fps must be part of the sample-encode cache key"
    );
}

#[test]
fn sample_dest_extension_alters_cache_key() {
    let key_for = |ext: &str| {
        let mut input = standard_key_input();
        input.dest_ext = ext.into();
        standard_key(&input)
    };

    assert_ne!(
        key_for("mkv"),
        key_for("av1"),
        "sample output extension must be part of the cache key"
    );
}

#[test]
fn xpsnr_scoring_mode_must_alter_cache_key() {
    let enc = minimal_enc_args("/movies/a/clip.mkv", 30.0);
    let key_for = |vmaf: Vmaf, xpsnr: bool| {
        encode_cache_key(&standard_key_input(), &enc, &scoring(vmaf, xpsnr, Xpsnr::default()))
    };
    let vmaf_and = || Vmaf { and_vmaf: Some(true), ..Default::default() };

    assert_ne!(
        key_for(Vmaf::default(), false),
        key_for(Vmaf::default(), true),
        "--xpsnr flag must be part of the sample-encode cache key"
    );
    assert_ne!(
        key_for(Vmaf::default(), true),
        key_for(vmaf_and(), true),
        "xpsnr scoring mode must alter cache key when --and-vmaf is set"
    );
}

#[test]
fn distinct_sizes_produce_distinct_keys() {
    let key_for = |size: u64| {
        let mut input = standard_key_input();
        input.input_size = size;
        standard_key(&input)
    };
    let mut keys: Vec<String> = (1000..1100).map(|n| key_for(n).to_hex()).collect();
    keys.sort();
    keys.dedup();
    assert_eq!(keys.len(), 100);
}

#[test]
fn lookups_give_a_hit_a_key_or_a_report() {
    let key = || standard_key(&standard_key_input());
    let stored = encode_result(1, 2, 3, None, None);
    let hit = cached_encode(key(), Ok(Some(stored)));
    assert!(hit.result.expect("hit").from_cache);
    let miss = cached_encode(key(), Ok(None));
    assert_eq!(miss.result, None);
    assert_eq!(miss.key, Some(key()));
    let broken = cached_encode(key(), Err("locked".into()));
    assert_eq!(broken.result, None);
    assert!(broken.report.expect("report").contains("locked"));
}

// ---- a run over samples ----

fn run_of(samples: u64, xpsnr: bool, and_vmaf: bool) -> SampleRun {
    let plan = valid_sample_plan(
        Duration::from_secs(1000),
        24.0,
        samples,
        Duration::from_secs(10),
        false,
    );
    let vmaf = Vmaf { and_vmaf: Some(and_vmaf), ..Default::default() };
    SampleRun::new(&plan, &scoring(vmaf, xpsnr, Xpsnr::default()))
}

#[test]
fn encode_progress_finite_when_sample_duration_zero() {
    let mut run = run_of(4, false, false);
    run.sample_duration = Duration::zero();
    run.start_sample(0, 5000);
    run.cache_miss();
    let status = run.encode_progress(Duration::from_micros(1_000), single(24.0));
    assert!(status.progress.whole > 0);
    let progress = status.progress.part as f32 / status.progress.whole as f32;
    assert!(
        progress.is_finite(),
        "encode progress must be finite when sample_duration is zero, got {progress}"
    );
}

#[test]
fn samples_are_encoded_and_scored_in_turn() {
    let mut run = run_of(2, true, true);
    let first = run.start_sample(0, 5000);
    assert_eq!((first.sample, first.samples), (1, 2));
    assert_eq!(first.work, Work::Encode);
    run.cache_miss();
    let half = run.encode_progress(Duration::from_secs(5), single(48.0));
    // half of one sample out of twice two samples
    assert_eq!(half.progress, Progress { part: 5_000_000, whole: 40_000_000 });
    match run.encoded(2500, Duration::from_secs(3), Some(Duration::from_secs(9))) {
        Next::Score { kind, status } => {
            assert_eq!(kind, ScoreKind::Xpsnr);
            assert_eq!(status.work, Work::Score(ScoreKind::Xpsnr));
            // a quarter of all
            assert_eq!(status.progress, Progress { part: 2, whole: 8 });
        }
        other => panic!("{other:?}"),
    }
    // two scores share the work of one
    let scoring = run.score_progress(Duration::from_secs(10), single(99.0));
    assert_eq!(scoring.progress.part, 15_000_000);
    match run.scored(Some(single(40.0))) {
        Next::Score { kind, .. } => assert_eq!(kind, ScoreKind::Vmaf),
        other => panic!("{other:?}"),
    }
    match run.scored(Some(single(95.0))) {
        Next::Report { sample, result } => {
            assert_eq!(sample, 1);
            assert_eq!(result.sample_size, 5000);
            assert_eq!(result.encoded_size, 2500);
            assert_eq!(result.vmaf_score, Some(single(95.0)));
            assert_eq!(result.xpsnr_score, Some(single(40.0)));
            assert_eq!(result.sample_duration, Duration::from_secs(9));
            assert_eq!(result.encode_time, Duration::from_secs(3));
        }
        other => panic!("{other:?}"),
    }
    assert_eq!(run.phase, Phase::Waiting);
    assert_eq!(run.next_index(), Some(1));
    run.start_sample(1, 5000);
    let mut cached = encode_result(5000, 2000, 10, Some(94.0), Some(41.0));
    cached.from_cache = true;
    assert_eq!(
        run.cache_hit(cached),
        Update::SampleResult { sample: 2, result: cached }
    );
    // every sample is done, each in its place
    assert_eq!(run.next_index(), None);
    assert_eq!(run.results.len(), 2);
    assert_eq!(run.results[0].encoded_size, 2500);
    assert_eq!(run.results[1], cached);
    let means = Means {
        vmaf_score: Some(single(94.5)),
        xpsnr_score: Some(single(40.5)),
        size_by_duration: 10,
        size_by_file_percent: 20,
        encode_percent: double(45.0),
        encode_time: Duration::from_secs(60),
    };
    match run.finish(means) {
        Update::Done(output) => {
            assert_eq!(output.vmaf_score, Some(single(94.5)));
            assert_eq!(output.predicted_encode_size, 10);
            assert!(!output.from_cache);
        }
        other => panic!("{other:?}"),
    }
}

#[test]
fn longer_inputs_have_no_fewer_samples() {
    let plan = |secs: u64| {
        valid_sample_plan(Duration::from_secs(secs), 24.0, 3, Duration::from_secs(20), false)
    };
    let counts: Vec<u64> = [30, 60, 71, 600].iter().map(|s| plan(*s).sample_count().get()).collect();
    assert_eq!(counts, [1, 1, 3, 3]);
    assert!(plan(60).full_pass() && !plan(71).full_pass());
    // all windows have the frames of one sample
    let frames: Vec<u32> = plan(600).windows().iter().map(|w| w.frames().get()).collect();
    assert_eq!(frames, [480, 480, 480]);
}

#[test]
fn tiny_samples_are_refused() {
    assert_eq!(check_sample_size(1025), Ok(1025));
    assert!(check_sample_size(1024).is_err());
}

#[test]
fn samples_keep_no_frame_rate_mode() {
    let mut args = minimal_enc_args("in.mkv", 30.0);
    args.output_args = ["-fps_mode", "vfr", "-vsync", "0", "-g", "240"]
        .iter()
        .map(|s| s.to_string())
        .collect();
    assert_eq!(sample_args(args).output_args, ["-g", "240"]);
}

#[test]
fn statuses_and_results_are_shown() {
    let mut status = Status {
        work: Work::Encode,
        fps: single(24.0),
        progress: Progress { part: 0, whole: 1 },
        sample: 2,
        samples: 5,
        full_pass: false,
    };
    assert!(status.prefix().contains("2/5"), "{}", status.prefix());
    assert!(status.message("24").contains("24 fps"), "{}", status.message("24"));
    status.full_pass = true;
    assert!(status.prefix().contains("ull pass"), "{}", status.prefix());
    assert_eq!(Work::default(), Work::Encode);
    assert_eq!(Work::Score(ScoreKind::Xpsnr).fps_label(), "xpsnr");
    assert_eq!(ScoreKind::Vmaf.display_str(), "VMAF");

    let mut result = encode_result(1000, 500, 10, Some(95.0), None);
    let shown = ShownResult { percent: "50", vmaf: "95.00", xpsnr: "" };
    assert_eq!(
        result.attempt_line(1, Some("30"), &shown),
        "- crf 30: Sample 1 (50%) VMAF 95.00"
    );
    result.from_cache = true;
    assert_eq!(
        result.log_line(1, 3, "30", &shown),
        "sample 1/3 crf 30 VMAF 95.00 (50%) (cache)"
    );
    let output = Output {
        vmaf_score: Some(single(95.0)),
        xpsnr_score: None,
        predicted_encode_size: 1_500_000,
        encode_percent: double(50.0),
        predicted_encode_time: Duration::from_secs(300),
        from_cache: false,
    };
    let segments = human_result(&output, false, double(50.0), &shown);
    let line: String = segments.iter().map(|s| s.text.as_str()).collect();
    assert_eq!(
        line,
        "VMAF 95.00 predicted video stream size 1.43 MiB (50%) taking 5 minutes"
    );
    assert_eq!(segments[1].tone, Tone::BoldGreen);
    assert!(output.log_line("30", &shown).contains("30"));
    assert_eq!(
        json_result(&output),
        [
            ("predicted_encode_size", JsonNumber::Whole(1_500_000)),
            ("predicted_encode_percent", JsonNumber::Percent(double(50.0))),
            ("predicted_encode_seconds", JsonNumber::Seconds(Duration::from_secs(300))),
            ("vmaf", JsonNumber::Score(single(95.0))),
        ]
    );
}
