use ab_av1::command::rules::{
    choose_temp_parent, reserved_input_arg, reserved_output_arg, validate_enc_arg,
    validate_encoder_passthrough, validate_svt_arg, CrfSearchRules, EncodeRules,
    PositionalVmafScore, SampleCountRules, ValidationError,
};
use ab_av1::float::Single;

fn single(x: f32) -> Single {
    Single::from_bits(x.to_bits())
}

fn strings(list: &[&str]) -> Vec<String> {
    list.iter().map(|s| s.to_string()).collect()
}

fn positional_vmaf_score(value: f32) -> PositionalVmafScore {
    PositionalVmafScore::new(single(value))
}

#[test]
fn crf_search_rules_report_first_error_without_clap_or_processes() {
    let cases = [
        (
            CrfSearchRules {
                min_vmaf: Some(single(95.0)),
                min_xpsnr: Some(single(55.0)),
                min_crf: Some(single(20.0)),
                max_crf: Some(single(10.0)),
                positional_vmaf_score: Some(positional_vmaf_score(95.0)),
            },
            ValidationError::BothMinScores,
        ),
        (
            CrfSearchRules {
                min_vmaf: None,
                min_xpsnr: None,
                min_crf: Some(single(20.0)),
                max_crf: Some(single(10.0)),
                positional_vmaf_score: Some(positional_vmaf_score(95.0)),
            },
            ValidationError::InvalidCrfBounds,
        ),
        (
            CrfSearchRules {
                min_vmaf: None,
                min_xpsnr: None,
                min_crf: Some(single(10.0)),
                max_crf: Some(single(20.0)),
                positional_vmaf_score: Some(positional_vmaf_score(95.0)),
            },
            ValidationError::PositionalVmafNumber { num: single(95.0) },
        ),
    ];

    cases.into_iter().for_each(|(rules, expected)| {
        assert_eq!(rules.validate(), Err(expected));
    });
}

#[test]
fn crf_search_rules_accept_valid_combinations() {
    assert_eq!(
        CrfSearchRules {
            min_vmaf: Some(single(95.0)),
            min_xpsnr: None,
            min_crf: Some(single(10.0)),
            max_crf: Some(single(20.0)),
            positional_vmaf_score: None,
        }
        .validate(),
        Ok(())
    );
}

#[test]
fn encode_rules_report_first_error_without_probe_or_filesystem() {
    let cases = [
        (
            EncodeRules {
                overwrite_input: false,
                same_input_output: true,
                downmix_to_stereo: true,
                audio_codec: Some("copy"),
            },
            ValidationError::SameInputOutput,
        ),
        (
            EncodeRules {
                overwrite_input: true,
                same_input_output: true,
                downmix_to_stereo: true,
                audio_codec: Some("copy"),
            },
            ValidationError::StereoDownmixWithCopy,
        ),
    ];

    cases.into_iter().for_each(|(rules, expected)| {
        assert_eq!(rules.validate(), Err(expected));
    });
}

#[test]
fn encode_rules_accept_valid_combinations() {
    assert_eq!(
        EncodeRules {
            overwrite_input: false,
            same_input_output: false,
            downmix_to_stereo: true,
            audio_codec: Some("libopus"),
        }
        .validate(),
        Ok(())
    );
}

#[test]
fn encoder_passthrough_rules_report_first_reserved_arg() {
    let cases: [(bool, bool, &[&str], &[&str], ValidationError); 3] = [
        (false, true, &[], &[], ValidationError::SvtArgsOnNonSvtAv1),
        (
            true,
            false,
            &["-vf"],
            &["-vcodec"],
            ValidationError::ReservedEncoderArg {
                arg: "-vf",
                hint: " use --vfilter",
            },
        ),
        (
            true,
            false,
            &[],
            &["-vcodec"],
            ValidationError::ReservedEncoderArg {
                arg: "-vcodec",
                hint: " use --encoder",
            },
        ),
    ];

    cases.into_iter().for_each(
        |(svtav1, has_svt_args, input_args, output_args, expected)| {
            assert_eq!(
                validate_encoder_passthrough(
                    svtav1,
                    has_svt_args,
                    &strings(input_args),
                    &strings(output_args)
                ),
                Err(expected)
            );
        },
    );
}

#[test]
fn encoder_passthrough_rules_accept_valid_args() {
    assert_eq!(
        validate_encoder_passthrough(
            true,
            true,
            &strings(&["-hwaccel", "none"]),
            &strings(&["-b:v", "0"])
        ),
        Ok(())
    );
}

#[test]
fn reserved_args_are_refused() {
    for (arg, hint) in [
        ("-i", ""),
        ("-y", ""),
        ("-n", ""),
        ("-pix_fmt", " use --pix-format"),
        ("-crf", ""),
        ("-preset", " use --preset"),
        ("-vf", " use --vfilter"),
        ("-filter:v", " use --vfilter"),
    ] {
        assert_eq!(reserved_input_arg(arg), Some((arg, hint)));
        assert_eq!(reserved_output_arg(arg), Some((arg, hint)));
    }
    for (arg, hint) in [
        ("-c:a", " use --acodec"),
        ("-codec:a", " use --acodec"),
        ("-acodec", " use --acodec"),
        ("-c:v", " use --encoder"),
        ("-c:v:0", " use --encoder"),
        ("-codec:v", " use --encoder"),
        ("-codec:v:0", " use --encoder"),
        ("-vcodec", " use --encoder"),
    ] {
        assert_eq!(reserved_input_arg(arg), None);
        assert_eq!(reserved_output_arg(arg), Some((arg, hint)));
    }
    assert_eq!(reserved_output_arg("-g"), None);
    assert_eq!(
        validate_encoder_passthrough(false, false, &[], &strings(&["-g", "-svtav1-params"])),
        Err(ValidationError::Svtav1ParamsInEncoderArg)
    );
}

#[test]
fn sample_count_rule_preserves_explicit_zero_and_minimum_defaults() {
    let cases = [
        (
            SampleCountRules {
                samples: Some(0),
                computed_samples: 60,
                min_samples: Some(5),
            },
            5,
        ),
        (
            SampleCountRules {
                samples: None,
                computed_samples: 0,
                min_samples: None,
            },
            1,
        ),
        (
            SampleCountRules {
                samples: None,
                computed_samples: 2,
                min_samples: Some(5),
            },
            5,
        ),
    ];

    cases.into_iter().for_each(|(rules, expected)| {
        assert_eq!(rules.sample_count(), expected);
    });
}

#[test]
fn temp_parent_rule_prefers_explicit_then_input_parent() {
    let explicit = "/explicit";
    let input_parent = "/input";

    assert_eq!(
        choose_temp_parent(Some(explicit), Some(input_parent)),
        Some(explicit)
    );
    assert_eq!(
        choose_temp_parent(None, Some(input_parent)),
        Some(input_parent)
    );
    assert_eq!(choose_temp_parent(None, None), None);
}

#[test]
fn encoder_parser_rules_reject_reserved_svt_and_enc_args() {
    let cases = [
        (
            validate_svt_arg("crf=32"),
            ValidationError::ReservedSvtArg { key: "crf" },
        ),
        (
            validate_svt_arg("input-depth=10"),
            ValidationError::ReservedSvtArg { key: "input-depth" },
        ),
        (
            validate_enc_arg("-svtav1-params=scd=1"),
            ValidationError::Svtav1ParamsInEncoderArg,
        ),
    ];

    cases.into_iter().for_each(|(actual, expected)| {
        assert_eq!(actual, Err(expected));
    });
    assert_eq!(validate_svt_arg("film-grain=8"), Ok(()));
    assert_eq!(validate_enc_arg("-x265-params=lossless=1"), Ok(()));
}

#[test]
fn a_positional_score_needs_a_threshold() {
    let rules = CrfSearchRules {
        min_vmaf: Some(single(95.0)),
        min_xpsnr: None,
        min_crf: None,
        max_crf: None,
        positional_vmaf_score: Some(positional_vmaf_score(95.0)),
    };
    assert_eq!(rules.validate(), Ok(()));
    assert_eq!(positional_vmaf_score(95.0).get(), single(95.0));
    let err = ValidationError::PositionalVmafNumber { num: single(95.5) };
    assert!(err.message("95.5").contains("95.5"));
}

#[test]
fn equal_bounds_are_refused() {
    let rules = |min, max| CrfSearchRules {
        min_vmaf: None,
        min_xpsnr: None,
        min_crf: Some(single(min)),
        max_crf: Some(single(max)),
        positional_vmaf_score: None,
    };
    assert_eq!(rules(20.0, 20.0).validate(), Err(ValidationError::InvalidCrfBounds));
    assert_eq!(rules(19.9, 20.0).validate(), Ok(()));
}
