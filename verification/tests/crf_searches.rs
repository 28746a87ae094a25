use ab_av1::command::args::encode::{Encode, EncodeArgsError, Encoder};
use ab_av1::command::args::vmaf::{Vmaf, VmafArg};
use ab_av1::command::args::{
    EncodeToOutput, FrameRateOverride, Sample as SampleArgs, ScoreArgs, Xpsnr,
};
use ab_av1::command::auto_encode::{
    encode_to, failed_segments, found_segments, search_result, AutoEncodeConfig, AutoEncodeError,
};
use ab_av1::command::crf_search::decision::{vmaf_lerp_q, SearchTransition};
use ab_av1::command::crf_search::err::Error;
use ab_av1::command::crf_search::{
    guess_progress, output_search_score, status_prefix, Crf, CrfSearch, CrfSearchConfig, CrfStep,
    CrfValueError, MaxEncodedPercent, QualityConverter, Sample, ScoreOptions, SearchSettings,
    ShownAttempt, StdoutFormat, BAR_LEN,
};
use ab_av1::command::encode::error::EncodePlanError;
use ab_av1::command::encode::preflight::audio_config;
use ab_av1::command::rules::{CrfSearchRules, EncodeRules, PositionalVmafScore, ValidationError};
use ab_av1::command::sample_encode::result::Output;
use ab_av1::command::sample_encode::{Progress, Status, Work};
use ab_av1::duration::Duration;
use ab_av1::ffmpeg;
use ab_av1::ffprobe::Ffprobe;
use ab_av1::float::{Double, Single};
use ab_av1::style::{Segment, Tone};

fn single(x: f32) -> Single {
    Single::from_bits(x.to_bits())
}

fn double(x: f64) -> Double {
    Double::from_bits(x.to_bits())
}

fn value(x: Single) -> f32 {
    f32::from_bits(x.bits)
}

fn score(x: Option<Single>) -> f32 {
    x.map_or(0.0, value)
}

fn step(x: f32) -> CrfStep {
    CrfStep::try_new(single(x)).unwrap()
}

fn text(segments: &[Segment]) -> String {
    segments.iter().map(|s| s.text.as_str()).collect()
}

fn test_probe() -> Ffprobe {
    Ffprobe {
        duration: Ok(Duration::from_secs(120)),
        has_audio: false,
        max_audio_channels: None,
        fps: Ok(double(24.0)),
        resolution: Some((1920, 1080)),
        is_image: false,
        pix_fmt: Some("yuv420p".into()),
    }
}

fn mock_output(vmaf_score: Option<f32>, xpsnr_score: Option<f32>, encode_percent: f64) -> Output {
    Output {
        vmaf_score: vmaf_score.map(single),
        xpsnr_score: xpsnr_score.map(single),
        predicted_encode_size: 1_000_000,
        encode_percent: double(encode_percent),
        predicted_encode_time: Duration::from_secs(60),
        from_cache: false,
    }
}

fn score_options() -> ScoreOptions {
    ScoreOptions {
        vmaf: Vmaf::default(),
        score: ScoreArgs { reference_vfilter: None },
        xpsnr: Xpsnr::default(),
    }
}

fn search_args(min_vmaf: Option<f32>, min_xpsnr: Option<f32>, thorough: bool) -> CrfSearchConfig {
    search_args_with_crf_range(min_vmaf, min_xpsnr, thorough, Some(20.0), Some(40.0))
}

fn search_args_with_crf_range(
    min_vmaf: Option<f32>,
    min_xpsnr: Option<f32>,
    thorough: bool,
    min_crf: Option<f32>,
    max_crf: Option<f32>,
) -> CrfSearchConfig {
    let min_xpsnr = min_xpsnr.map(single);
    CrfSearchConfig {
        args: Encode {
            encoder: Encoder::from_str("libsvtav1"),
            input: "test.mp4".into(),
            vfilter: None,
            pix_format: None,
            preset: None,
            keyint: None,
            scd: None,
            svt_args: vec![],
            enc_args: vec![],
            enc_input_args: vec![],
        },
        min_vmaf: min_vmaf.map(single),
        min_xpsnr,
        max_encoded_percent: MaxEncodedPercent::new(double(80.0)).unwrap(),
        min_crf: min_crf.map(single),
        max_crf: max_crf.map(single),
        crf_increment: Some(step(1.0)),
        high_crf_means_hq: Some(false),
        thorough,
        cache: false,
        sample: SampleArgs {
            samples: Some(1),
            sample_every: Duration::from_secs(720),
            min_samples: None,
            sample_duration: Duration::from_secs(20),
            keep: false,
            temp_dir: None,
            extension: None,
        },
        scoring: CrfSearchConfig::scoring_for(min_xpsnr, score_options()),
    }
}

fn steps(crf: Single, increment: CrfStep) -> i64 {
    (f64::from(value(crf)) / f64::from(value(increment.get()))).round() as i64
}

fn lerp(min_score: f32, worse: &Sample, better: &Sample, use_xpsnr: bool) -> i64 {
    let worse_score = value(output_search_score(&worse.enc, use_xpsnr));
    let better_score = value(output_search_score(&better.enc, use_xpsnr));
    let factor = (min_score - worse_score) / (better_score - worse_score);
    (worse.q as f32 - (worse.q - better.q) as f32 * factor).round() as i64
}

/// The runs of a search that did not succeed, and the one that did.
#[derive(Debug)]
struct Searched {
    run_results: Vec<Sample>,
    done: Sample,
}

/// Runs a search on outputs that `mock` makes up.
fn collect_run(
    config: &CrfSearchConfig,
    mut mock: impl FnMut(f32) -> Output,
) -> Result<Searched, Error> {
    let setup = config.setup()?;
    let increment = value(setup.crf_increment.get());
    let span = value(setup.max_crf) - value(setup.min_crf);
    let default_span = value(setup.default_max_crf) - value(setup.default_min_crf);
    let conv = QualityConverter::new(setup.crf_increment, setup.high_crf_means_hq);
    let (min_q, max_q) = conv.min_max_q(
        steps(setup.min_crf, setup.crf_increment),
        steps(setup.max_crf, setup.crf_increment),
    );
    let min_score = value(setup.min_score);
    let mut search = CrfSearch::new(SearchSettings {
        min_score: setup.min_score,
        thorough: config.thorough,
        cut_on_iter2: span > default_span * 0.5,
        min_q,
        max_q,
        use_xpsnr: setup.use_xpsnr,
        max_encoded_percent: config.max_encoded_percent,
    });
    let mut run_results = Vec::new();
    loop {
        let tolerance = if config.thorough {
            0.05
        } else {
            (increment.min(1.0) * 2_f32.powi(search.run() as i32 - 1) * 0.1).max(0.1)
        };
        let crf = (conv.crf_steps(search.q) as f64 * f64::from(increment)) as f32;
        let sample = Sample { enc: mock(crf), crf: single(crf), q: search.q };
        match search.on_output(
            sample.crf,
            sample.enc,
            single(min_score + tolerance),
            single(min_score + 0.11),
        )? {
            SearchTransition::Continue { .. } => {}
            SearchTransition::Interpolate { worse, better } => {
                search.interpolated(lerp(min_score, &worse, &better, setup.use_xpsnr));
            }
            SearchTransition::Cut { from_q, to_q } => {
                search.cut((from_q as f32 * 0.4 + to_q as f32 * 0.6).round() as i64);
            }
            SearchTransition::Done(done) => return Ok(Searched { run_results, done }),
            SearchTransition::RunResultThenDone { run_result, done } => {
                run_results.push(run_result);
                return Ok(Searched { run_results, done });
            }
        }
        run_results.push(sample);
    }
}

/// The crf of a q value.
fn crf_at(conv: &QualityConverter, q: i64) -> f32 {
    (conv.crf_steps(q) as f64 * f64::from(value(conv.crf_increment.get()))) as f32
}

#[test]
fn q_crf_conversions() {
    let tenth = step(0.1);
    let q_conv = QualityConverter::new(tenth, false);
    assert_eq!(q_conv.quality_index(steps(single(33.5), tenth)), 335);
    assert_eq!(crf_at(&q_conv, 335), 33.5);

    let q_conv = QualityConverter::new(step(1.0), false);
    assert_eq!(q_conv.quality_index(steps(single(27.0), step(1.0))), 27);
    assert_eq!(crf_at(&q_conv, 27), 27.0);
}

#[test]
fn q_values_survive_a_conversion_to_crf_and_back() {
    for increment in [0.1, 0.25, 1.0] {
        for high_crf_means_hq in [false, true] {
            let conv = QualityConverter::new(step(increment), high_crf_means_hq);
            for q in -10_000..=10_000 {
                let back = steps(single(crf_at(&conv, q)), conv.crf_increment);
                assert_eq!(conv.quality_index(back), q, "increment {increment}");
            }
        }
    }
}

#[test]
fn crf_step_rejects_non_finite_and_non_positive_values() {
    assert!(CrfStep::try_new(single(0.0)).is_err());
    assert!(CrfStep::try_new(single(-1.0)).is_err());
    assert!(CrfStep::try_new(single(f32::NAN)).is_err());
    assert_eq!(
        CrfStep::try_new(single(f32::INFINITY)),
        Err(CrfValueError::InvalidStep)
    );
}

#[test]
fn crf_rejects_values_that_are_not_finite() {
    assert_eq!(Crf::try_new(single(30.0)).unwrap().get(), single(30.0));
    assert_eq!(Crf::try_new(single(f32::NAN)), Err(CrfValueError::InvalidCrf));
    assert_eq!(CrfValueError::InvalidCrf.message(), "CRF value must be finite");
}

#[test]
fn quality_converter_typed_round_trip_preserves_crf() {
    let q_conv = QualityConverter::new(step(0.1), false);
    let crf = Crf::try_new(single(33.5)).unwrap();

    let q = q_conv.quality_index(steps(crf.get(), step(0.1)));

    assert_eq!(q, 335);
    assert_eq!(crf_at(&q_conv, q), 33.5);
}

#[test]
fn q_crf_conversions_high_crf_means_hq() {
    let q_conv = QualityConverter::new(step(0.1), true);
    assert_eq!(q_conv.quality_index(steps(single(33.5), step(0.1))), -335);
    assert_eq!(crf_at(&q_conv, -335), 33.5);

    let q_conv = QualityConverter::new(step(1.0), true);
    assert_eq!(q_conv.quality_index(steps(single(27.0), step(1.0))), -27);
    assert_eq!(crf_at(&q_conv, -27), 27.0);
    assert_eq!(q_conv.min_max_q(10, 50), (-50, -10));
}

#[test]
fn exact_min_score_is_success() {
    let min_score = 95.0;
    let args = search_args(Some(min_score), None, true);

    let searched =
        collect_run(&args, |_| mock_output(Some(min_score), None, 50.0)).expect("run");

    assert_eq!(searched.done.enc.vmaf_score, Some(single(min_score)));
}

#[test]
fn crf_search_config_lowers_score_args() {
    let mut options = score_options();
    options.score.reference_vfilter = Some("scale=1280:-1".into());
    options.vmaf.vmaf_args = vec![VmafArg::new("n_subsample=4")];
    options.xpsnr.xpsnr_fps = FrameRateOverride::new(single(0.0));

    let scoring = CrfSearchConfig::scoring_for(Some(single(90.0)), options);

    assert_eq!(
        scoring.score.reference_vfilter.as_deref(),
        Some("scale=1280:-1")
    );
    assert!(scoring.xpsnr);
    assert_eq!(scoring.xpsnr_opts.fps(), None);
    assert_eq!(
        scoring
            .vmaf
            .vmaf_args
            .iter()
            .map(|a| a.as_str())
            .collect::<Vec<_>>(),
        ["n_subsample=4"]
    );
}

#[test]
fn xpsnr_target_with_and_vmaf_uses_xpsnr_for_search() {
    let min_xpsnr = 90.0;
    let mut args = search_args(None, Some(min_xpsnr), true);
    args.scoring.vmaf.and_vmaf = Some(true);

    // VMAF below threshold; XPSNR meets it — search must use XPSNR.
    let searched = collect_run(&args, |_| {
        mock_output(Some(85.0), Some(min_xpsnr + 2.0), 50.0)
    })
    .expect("run");

    assert_eq!(searched.done.enc.xpsnr_score, Some(single(min_xpsnr + 2.0)));
}

#[test]
fn run_binary_search_finds_acceptable_crf() {
    let args = search_args(Some(95.0), None, true);

    // Higher CRF → higher VMAF in this synthetic model.
    let searched =
        collect_run(&args, |crf| mock_output(Some(80.0 + crf), None, 50.0)).expect("run");

    assert!(score(searched.done.enc.vmaf_score) >= 95.0);
    assert!(!searched.run_results.is_empty());
}

#[test]
fn run_returns_no_good_crf_when_scores_too_low() {
    let args = search_args(Some(95.0), None, true);

    let err = collect_run(&args, |_| mock_output(Some(80.0), None, 50.0))
        .expect_err("expected failure");

    assert!(matches!(err, Error::NoGoodCrf { .. }));
}

#[test]
fn output_search_score_matrix() {
    for (use_xpsnr, vmaf, xpsnr, expected) in [
        (false, Some(70.0), None, 70.0),
        (true, Some(70.0), Some(92.0), 92.0),
        (false, None, Some(88.0), 88.0),
    ] {
        let enc = mock_output(vmaf, xpsnr, 50.0);
        assert_eq!(output_search_score(&enc, use_xpsnr), single(expected));
    }
}

#[test]
fn threshold_success_matrix() {
    for (score, min, should_pass) in [
        (95.0f32, 95.0f32, true),
        (96.0, 95.0, true),
        (94.9, 95.0, false),
        (95.03, 95.0, true),
    ] {
        assert_eq!(single(score).at_least(single(min)), should_pass);
        assert_eq!(single(score).less_than(single(min)), !should_pass);
    }
}

#[test]
fn vmaf_lerp_q_interpolates_with_vmaf_scores() {
    let worse = Sample { crf: single(30.0), q: 30, enc: mock_output(Some(88.0), None, 50.0) };
    let better = Sample { crf: single(25.0), q: 25, enc: mock_output(Some(96.0), None, 50.0) };

    let between = lerp(92.0, &worse, &better, false);
    let q = vmaf_lerp_q(single(92.0), &worse, &better, false, between);

    assert!((26..=28).contains(&q));
}

#[test]
fn cut_on_iter2_narrows_toward_min_on_wide_crf_range() {
    // range > half default span enables cut_on_iter2
    let args = search_args_with_crf_range(Some(95.0), None, true, Some(5.0), Some(70.0));
    let mut tried = Vec::new();
    let _ = collect_run(&args, |crf| {
        tried.push(crf);
        mock_output(Some(80.0), None, 50.0)
    });

    // second probe should not jump straight to min_crf
    assert!(tried.len() >= 2);
    assert!(
        tried[1] > 5.0 + f32::EPSILON,
        "cut_on_iter2 should narrow before min_crf, got {tried:?}"
    );
}

#[test]
fn narrow_crf_range_skips_cut_on_iter2() {
    // custom range under half default span
    let args = search_args(Some(95.0), None, true);
    let mut tried = Vec::new();
    let _ = collect_run(&args, |crf| {
        tried.push(crf);
        mock_output(Some(80.0), None, 50.0)
    });

    // second probe should hit min_crf directly
    assert!(tried.len() >= 2);
    assert!((tried[1] - 20.0).abs() < f32::EPSILON, "got {tried:?}");
}

#[test]
fn validate_rejects_min_crf_gte_max_crf() {
    let args = search_args_with_crf_range(Some(95.0), None, true, Some(40.0), Some(30.0));

    assert!(
        matches!(args.validate(None), Err(ValidationError::InvalidCrfBounds)),
        "min_crf >= max_crf must fail validation before search starts"
    );
    assert_eq!(
        args.setup(),
        Err(Error::Other("Invalid --min-crf & --max-crf".into()))
    );
}

#[test]
fn output_search_score_uses_vmaf_fallback_when_xpsnr_missing() {
    // and-vmaf runs can still lack per-sample XPSNR on cache hits
    let enc = mock_output(Some(96.0), None, 50.0);

    assert_eq!(
        output_search_score(&enc, true),
        single(96.0),
        "use_xpsnr search should fall back to VMAF when XPSNR score is missing"
    );
}

#[test]
fn min_score_prefers_xpsnr_when_both_thresholds_set() {
    let args = search_args(Some(95.0), Some(90.0), true);

    assert_eq!(
        args.min_score(),
        single(90.0),
        "min_score must use --min-xpsnr when both thresholds are present"
    );
    assert_eq!(search_args(None, None, true).min_score(), single(95.0));
}

#[test]
fn thorough_mode_accepts_score_within_tolerance_band() {
    let min_score = 95.0;
    let args = search_args(Some(min_score), None, true);

    let searched =
        collect_run(&args, |_| mock_output(Some(min_score + 0.03), None, 50.0)).expect("run");

    // thorough tolerance is 0.05
    assert!(score(searched.done.enc.vmaf_score) < min_score + 0.05);
    assert!(searched.run_results.len() <= 1);
}

#[test]
fn vmaf_lerp_q_interpolates_with_xpsnr_scores() {
    let worse = Sample { crf: single(30.0), q: 30, enc: mock_output(None, Some(88.0), 50.0) };
    let better = Sample { crf: single(25.0), q: 25, enc: mock_output(None, Some(96.0), 50.0) };

    let between = lerp(92.0, &worse, &better, true);
    let q = vmaf_lerp_q(single(92.0), &worse, &better, true, between);

    assert!((26..=28).contains(&q));
}

#[test]
fn vmaf_lerp_q_bounded_between_samples() {
    for worse_q in 30..50 {
        for better_q in 20..28 {
            let worse = Sample {
                crf: single(worse_q as f32),
                q: worse_q,
                enc: mock_output(Some(85.0), None, 50.0),
            };
            let better = Sample {
                crf: single(better_q as f32),
                q: better_q,
                enc: mock_output(Some(97.0), None, 50.0),
            };
            for between in [i64::MIN, better_q, 29, worse_q, i64::MAX] {
                let q = vmaf_lerp_q(single(91.0), &worse, &better, false, between);
                assert!(q > better_q && q < worse_q);
            }
        }
    }
}

fn progress(run: usize, part: u128, whole: u64, thorough: bool) -> u64 {
    guess_progress(run, Progress { part, whole }, thorough)
}

#[test]
fn guess_progress_thorough_caps_at_six_runs() {
    assert!(progress(1, 1, 2, true) < progress(2, 1, 2, true));
    assert!(progress(6, 1, 1, true) <= BAR_LEN);
}

#[test]
fn guess_progress_stays_within_bar_len() {
    for run in 1..20 {
        for part in 0..15 {
            assert!(progress(run, part, 10, false) <= BAR_LEN);
            assert!(progress(run, part, 10, true) <= BAR_LEN);
        }
    }
    assert_eq!(progress(1, 0, 10, false), 0);
    assert_eq!(progress(5, 10, 10, false), BAR_LEN);
    assert_eq!(progress(2, 5, 10, false), BAR_LEN * 3 / 10);
}

#[test]
fn adjacent_l_bound_done_requires_min_score() {
    let args = search_args_with_crf_range(Some(95.0), None, true, Some(24.0), Some(26.0));
    let searched = collect_run(&args, |crf| {
        let vmaf = match crf.round() as i32 {
            24 => 96.0,
            25 => 93.0,
            26 => 92.0,
            _ => 80.0,
        };
        mock_output(Some(vmaf), None, 50.0)
    })
    .expect("run");
    assert!(
        score(searched.done.enc.vmaf_score) >= 95.0,
        "Done sample must meet min_score, got {:?}",
        searched.done.enc.vmaf_score
    );
}

#[test]
fn run_uses_xpsnr_threshold_when_both_min_scores_set() {
    let args = search_args(Some(95.0), Some(90.0), true);

    let searched =
        collect_run(&args, |_| mock_output(Some(85.0), Some(92.0), 50.0)).expect("run");
    assert!(
        score(searched.done.enc.xpsnr_score) >= 90.0,
        "search must succeed against --min-xpsnr 90, got {:?}",
        searched.done.enc.xpsnr_score
    );
}

#[test]
fn max_encoded_percent_is_a_checked_newtype() {
    assert_eq!(MaxEncodedPercent::new(double(80.0)).unwrap().get(), double(80.0));
    assert!(matches!(
        MaxEncodedPercent::new(double(0.0)),
        Err(ValidationError::NonPositiveMaxEncodedPercent)
    ));
    assert!(matches!(
        MaxEncodedPercent::new(double(-1.0)),
        Err(ValidationError::NonPositiveMaxEncodedPercent)
    ));
    assert!(matches!(
        MaxEncodedPercent::new(double(f64::NAN)),
        Err(ValidationError::NonPositiveMaxEncodedPercent)
    ));
}

#[test]
fn validate_accepts_checked_max_encoded_percent() {
    let args = search_args(Some(95.0), None, true);
    assert_eq!(args.max_encoded_percent.get(), double(80.0));
    assert!(matches!(args.validate(None), Ok(())));
}

#[test]
fn validate_rejects_both_min_vmaf_and_min_xpsnr() {
    let args = search_args(Some(95.0), Some(90.0), true);
    assert!(matches!(
        args.validate(None),
        Err(ValidationError::BothMinScores)
    ));
}

#[test]
fn validate_rejects_positional_vmaf_number_without_min_vmaf() {
    let args = search_args(None, None, true);
    let number = VmafArg::new("95").as_str().parse().expect("number");
    assert_eq!(
        args.validate(Some(PositionalVmafScore::new(single(number)))),
        Err(ValidationError::PositionalVmafNumber { num: single(95.0) })
    );
}

#[test]
fn cut_on_iter2_disabled_at_exact_half_default_span() {
    // libsvtav1 default span 5..70 = 65; half = 32.5; range 5..37.5 spans exactly 32.5
    let args = search_args_with_crf_range(Some(95.0), None, true, Some(5.0), Some(37.5));
    let mut tried = Vec::new();
    let _ = collect_run(&args, |crf| {
        tried.push(crf);
        mock_output(Some(80.0), None, 50.0)
    });
    assert!(tried.len() >= 2);
    assert!(
        (tried[1] - 5.0).abs() < f32::EPSILON,
        "at exactly half default span cut_on_iter2 must be off; second crf should be min_crf, got {tried:?}"
    );
}

#[test]
fn guess_progress_non_decreasing_at_run_boundaries() {
    let prev = progress(4, 1, 1, false);
    let next = progress(5, 0, 1, false);
    assert!(
        next >= prev,
        "progress must not jump backwards between runs: {prev} -> {next}"
    );
    for run in 1..5 {
        assert!(progress(run, 7, 7, true) <= progress(run + 1, 0, 9, true));
    }
}

#[test]
fn no_good_crf_when_score_meets_threshold_but_size_exceeds_at_max_q() {
    let args = search_args_with_crf_range(Some(95.0), None, true, Some(24.0), Some(26.0));
    let err = collect_run(&args, |crf| {
        let (vmaf, pct) = if (crf - 26.0).abs() < f32::EPSILON {
            (96.0, 90.0)
        } else {
            (80.0, 50.0)
        };
        mock_output(Some(vmaf), None, pct)
    })
    .expect_err("oversized good score at max");
    assert!(matches!(err, Error::NoGoodCrf { .. }));
}

#[test]
fn non_thorough_rejects_score_above_tolerance_band() {
    let min_score = 95.0;
    let args = search_args(Some(min_score), None, false);
    // Higher CRF → slightly lower VMAF so the search can refine after the first hit.
    let searched = collect_run(&args, |crf| {
        mock_output(Some(min_score + 0.15 - (crf - 20.0) * 0.01), None, 50.0)
    })
    .expect("run");
    let found = score(searched.done.enc.vmaf_score);
    assert!(
        found <= min_score + 0.11,
        "non-thorough must not accept first hit far above tolerance, got {found}"
    );
}

#[test]
fn high_crf_means_hq_encoder_search_converges() {
    let mut args = search_args_with_crf_range(Some(95.0), None, true, Some(10.0), Some(50.0));
    args.args.encoder = Encoder::from_str("hevc_videotoolbox");
    args.high_crf_means_hq = Some(true);
    // Higher CRF → higher quality for videotoolbox (high_crf_means_hq).
    let searched =
        collect_run(&args, |crf| mock_output(Some(70.0 + crf * 0.5), None, 50.0)).expect("run");
    assert!(
        score(searched.done.enc.vmaf_score) >= 95.0,
        "high_crf_means_hq search must find acceptable CRF, got {:?}",
        searched.done.enc.vmaf_score
    );
}

#[test]
fn searches_find_the_worst_acceptable_crf() {
    // quality falls with crf: the best crf is the greatest one with the score
    for target in 21..40 {
        let args = search_args(Some(95.0), None, true);
        let searched = collect_run(&args, |crf| {
            mock_output(Some(95.0 + (target as f32 - crf)), None, 50.0)
        })
        .expect("run");
        assert_eq!(value(searched.done.crf), target as f32);
    }
}

// ---- errors ----

fn search_sample(crf: f32) -> Sample {
    Sample {
        crf: single(crf),
        q: crf.round() as i64,
        enc: mock_output(Some(90.0), None, 50.0),
    }
}

#[test]
fn ensure_other_ok_when_condition_true() {
    assert!(Error::ensure_other(true, "should not fail").is_ok());
}

#[test]
fn ensure_other_err_when_condition_false() {
    let err = Error::ensure_other(false, "bad state").expect_err("expected error");
    assert!(matches!(err, Error::Other(_)));
    assert!(err.message().contains("bad state"));
}

#[test]
fn ensure_or_no_good_crf_returns_no_good_crf() {
    let last = search_sample(32.0);
    let err = Error::ensure_or_no_good_crf(false, &last).expect_err("expected NoGoodCrf");
    assert!(matches!(err, Error::NoGoodCrf { .. }));
    assert_eq!(err.message(), "Failed to find a suitable crf");
}

#[test]
fn from_anyhow_error_is_other() {
    let err = Error::Other(anyhow::Error::msg("boom").to_string());
    assert!(err.message().contains("boom"));
}

#[test]
fn ensure_or_no_good_crf_ok_when_condition_true() {
    let last = search_sample(28.0);
    assert!(Error::ensure_or_no_good_crf(true, &last).is_ok());
}

// ---- what is shown ----

#[test]
fn attempts_are_coloured_by_what_they_miss() {
    let shown = ShownAttempt { crf: "30", score: "94.50", percent: "90" };
    let max = MaxEncodedPercent::new(double(80.0)).unwrap();
    let mut sample = search_sample(30.0);
    sample.enc = mock_output(Some(94.5), None, 90.0);
    let segments = sample.print_attempt(single(95.0), max, &shown);
    let line = text(&segments);
    assert!(line.contains("crf 30"), "{line}");
    assert!(line.contains("94.50"), "{line}");
    assert!(line.contains("90%"), "{line}");
    assert!(segments.iter().any(|s| s.tone != Tone::Plain));
    // without a note on the cache nothing is styled behind the bracket
    let last = segments.last().expect("segments");
    assert_eq!((last.text.as_str(), last.tone), ("", Tone::Plain));
    sample.enc.from_cache = true;
    let segments = sample.print_attempt(single(95.0), max, &shown);
    let last = segments.last().expect("segments");
    assert_eq!((last.text.as_str(), last.tone), (" (cache)", Tone::Dim));
    assert!(text(&sample.print_attempt(single(95.0), max, &shown)).contains("cache"));
    assert!(sample.log_line(&shown).contains("30"));
    let result = StdoutFormat::Human.print_result(&sample, false, &shown);
    assert!(text(&result).contains("crf 30"), "{}", text(&result));
    assert!(text(&result).contains("976.56 KiB"), "{}", text(&result));
    assert!(text(&result).contains("60 seconds") || text(&result).contains("1 minute"), "{}", text(&result));
    assert!(text(&found_segments(&sample, &shown)).contains("94.50"));
    assert!(!failed_segments(&sample, single(95.0), max, &shown).is_empty());
}

#[test]
fn prefixes_name_crf_and_sample() {
    let mut status = Status {
        work: Work::Encode,
        fps: single(24.0),
        progress: Progress { part: 0, whole: 1 },
        sample: 2,
        samples: 5,
        full_pass: false,
    };
    assert_eq!(status_prefix(&status, "30"), "crf 30 2/5");
    status.full_pass = true;
    assert_eq!(status_prefix(&status, "30"), "crf 30 full pass");
}

// ---- search and encode ----

fn auto_config(output: Option<&str>) -> AutoEncodeConfig {
    AutoEncodeConfig {
        search: search_args(Some(95.0), None, true),
        encode: EncodeToOutput {
            output: output.map(|o| o.to_string()),
            audio_codec: None,
            downmix_to_stereo: false,
            video_only: false,
            overwrite_input: false,
        },
    }
}

#[test]
fn rejects_stereo_downmix_with_copy_codec_before_search() {
    let mut config = auto_config(Some("out.mkv"));
    config.encode.downmix_to_stereo = true;
    config.encode.audio_codec = Some("copy".into());
    assert_eq!(
        config.prepare(&test_probe(), false, None),
        Err(AutoEncodeError::Plan(EncodePlanError::StereoDownmixWithCopy))
    );
    // what is refused stays as it was
    let mut same = auto_config(Some("out.mkv"));
    same.encode.downmix_to_stereo = true;
    same.encode.audio_codec = Some("copy".into());
    assert_eq!(config, same);
}

#[test]
fn preparing_sets_no_more_than_the_extension_of_samples() {
    let mut config = auto_config(Some("out.webm"));
    assert!(config.prepare(&test_probe(), false, None).is_ok());
    let mut expected = auto_config(Some("out.webm"));
    expected.search.sample.extension = Some("webm".into());
    assert_eq!(config, expected);
}

#[test]
fn rejects_same_input_and_output_without_overwrite() {
    let mut config = auto_config(Some("test.mp4"));
    assert_eq!(
        config.prepare(&test_probe(), true, None),
        Err(AutoEncodeError::Plan(EncodePlanError::SameInputOutput))
    );
    config.encode.overwrite_input = true;
    assert!(config.prepare(&test_probe(), true, None).is_ok());
}

#[test]
fn auto_encode_takes_the_extension_of_the_output() {
    let mut config = auto_config(Some("out.webm"));
    let plan = config.prepare(&test_probe(), false, None).expect("plan");
    assert_eq!(plan.output, "out.webm");
    assert!(!plan.defaulting_output);
    assert_eq!(config.search.sample.extension.as_deref(), Some("webm"));
    let mut config = auto_config(None);
    let plan = config.prepare(&test_probe(), false, None).expect("plan");
    assert_eq!(plan.output, "test.av1.mp4");
    assert!(plan.defaulting_output);
    let to = encode_to(config.encode, plan.output);
    assert_eq!(to.output.as_deref(), Some("test.av1.mp4"));
    assert!(search_result(None).is_err());
    assert_eq!(search_result(Some(search_sample(30.0))), Ok(search_sample(30.0)));
}

#[test]
fn command_config_validation_hotspots_do_not_bypass_rules() {
    // what encode arguments, searches and preflight refuse is what the rules refuse
    let mut enc = search_args(None, None, true).args;
    enc.encoder = Encoder::from_str("libx264");
    for (svt, input, output) in [
        (vec!["film-grain=8"], vec![], vec![]),
        (vec![], vec!["-vf=x"], vec![]),
        (vec![], vec![], vec!["-vcodec=y"]),
        (vec![], vec![], vec!["-tune=film"]),
    ] {
        let own = |list: &[&str]| list.iter().map(|s| s.to_string()).collect::<Vec<String>>();
        enc.svt_args = own(&svt);
        enc.enc_input_args = own(&input);
        enc.enc_args = own(&output);
        let crf = ffmpeg::Crf::new(single(30.0), "30".into(), "30".into());
        let verdict = enc.to_ffmpeg_args(&crf, Ok(None)).map(|_| ());
        let flags = |list: &[&str]| {
            list.iter()
                .flat_map(|a| a.split('='))
                .map(|s| s.to_string())
                .collect::<Vec<String>>()
        };
        let rules = ab_av1::command::rules::validate_encoder_passthrough(
            false,
            !svt.is_empty(),
            &flags(&input),
            &flags(&output),
        );
        assert_eq!(verdict, rules.map_err(EncodeArgsError::Rule));
    }
    for args in [
        search_args(Some(95.0), Some(90.0), true),
        search_args_with_crf_range(None, None, true, Some(40.0), Some(30.0)),
        search_args(None, None, true),
    ] {
        let rules = CrfSearchRules {
            min_vmaf: args.min_vmaf,
            min_xpsnr: args.min_xpsnr,
            min_crf: args.min_crf,
            max_crf: args.max_crf,
            positional_vmaf_score: None,
        };
        assert_eq!(args.validate(None), rules.validate());
    }
    for (downmix_to_stereo, audio_codec) in [(true, Some("copy")), (true, None), (false, Some("copy"))] {
        let to = EncodeToOutput {
            output: None,
            audio_codec: audio_codec.map(|c| c.to_string()),
            downmix_to_stereo,
            video_only: false,
            overwrite_input: false,
        };
        let rules = EncodeRules {
            overwrite_input: false,
            same_input_output: false,
            downmix_to_stereo,
            audio_codec,
        };
        assert_eq!(
            audio_config(&to, &test_probe()).is_ok(),
            rules.validate().is_ok()
        );
    }
}

#[test]
fn no_crf_is_tried_twice() {
    // scores that do not fall steadily, some of them no numbers
    let scores = [96.0, 94.9, f32::NAN, 95.2, 99.0, 12.0, 95.1, 94.0, 97.5];
    for start in 0..scores.len() {
        for thorough in [false, true] {
            let config = search_args(Some(95.0), None, thorough);
            let mut tried = Vec::new();
            let _ = collect_run(&config, |crf| {
                assert!((20.0..=40.0).contains(&crf), "{crf}");
                assert!(!tried.contains(&crf), "{crf} again after {tried:?}");
                tried.push(crf);
                mock_output(Some(scores[(start + tried.len()) % scores.len()]), None, 50.0)
            });
            assert!(!tried.is_empty() && tried.len() <= 21);
        }
    }
}
