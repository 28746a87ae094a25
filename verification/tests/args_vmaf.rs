use ab_av1::command::args::encode::PixelFormat;
use ab_av1::command::args::vmaf::{
    auto_upscale, minimally_scale, parse_vmaf_arg, parse_vmaf_scale, Resolution, ResolutionError,
    Vmaf, VmafArg, VmafConfig, VmafModel, VmafScale,
};
use ab_av1::command::args::FrameRateOverride;
use ab_av1::float::Single;
use std::collections::hash_map::DefaultHasher;
use std::hash::{Hash, Hasher};

const THREADS: u64 = 16;

fn fps(x: f32) -> FrameRateOverride {
    FrameRateOverride::new(Single::from_bits(x.to_bits()))
}

fn with_args(args: &[&str]) -> Vmaf {
    Vmaf {
        vmaf_args: args.iter().map(|a| parse_vmaf_arg(a)).collect(),
        ..Default::default()
    }
}

fn lavfi(
    vmaf: Vmaf,
    distorted_res: Option<(u32, u32)>,
    pix_fmt: Option<PixelFormat>,
    ref_vfilter: Option<&str>,
) -> String {
    VmafConfig::from_args(vmaf).ffmpeg_lavfi(distorted_res, pix_fmt, ref_vfilter, THREADS)
}

#[test]
fn parse_vmaf_arg_returns_typed_model_arg() {
    let arg: VmafArg = parse_vmaf_arg("model=version=foo");
    assert_eq!((arg.as_str(), arg.is_model_override()), ("model=version=foo", true));
}

#[test]
fn vmaf_config_keeps_its_arguments() {
    let config = VmafConfig::from_args(Vmaf {
        and_vmaf: Some(true),
        vmaf_args: vec![VmafArg::new("n_subsample=4")],
        vmaf_scale: VmafScale::Auto,
        vmaf_fps: fps(24.0),
    });
    assert_eq!(config.and_vmaf, Some(true));
    assert_eq!(config.vmaf_args, [VmafArg::new("n_subsample=4")]);
    assert_eq!(config.vmaf_scale, VmafScale::Auto);
    assert_eq!(config.fps(), Some(Single::from_bits(24.0f32.to_bits())));
}

#[test]
fn vmaf_auto_scale_does_not_downscale_wide_short_sources() {
    let config = VmafConfig {
        and_vmaf: None,
        vmaf_args: vec![],
        vmaf_scale: VmafScale::Auto,
        vmaf_fps: fps(0.0),
    };

    assert_eq!(config.vf_scale(VmafModel::Vmaf1K, Some((2560, 720))), None);
}

#[test]
fn vmaf_auto_scale_does_not_upscale_sources_of_enough_width_or_height() {
    let config = VmafConfig {
        and_vmaf: None,
        vmaf_args: vec![],
        vmaf_scale: VmafScale::Auto,
        vmaf_fps: fps(0.0),
    };
    assert_eq!(config.vf_scale(VmafModel::Vmaf1K, Some((1700, 1000))), None);
    assert_eq!(config.vf_scale(VmafModel::Vmaf1K, Some((1728, 971))), None);
    assert!(config.vf_scale(VmafModel::Vmaf1K, Some((1727, 971))).is_some());
}

#[test]
fn vmaf_lavfi() {
    assert_eq!(
        lavfi(
            with_args(&["n_threads=5", "n_subsample=4"]),
            None,
            Some(PixelFormat::Yuv420p),
            Some("scale=1280:-1,fps=24")
        ),
        "[0:v]format=yuv420p,setpts=PTS-STARTPTS,settb=AVTB[dis];\
         [1:v]format=yuv420p,scale=1280:-1,fps=24,setpts=PTS-STARTPTS,settb=AVTB[ref];\
         [dis][ref]libvmaf=shortest=true:ts_sync_mode=nearest:n_threads=5:n_subsample=4"
    );
}

#[test]
fn vmaf_lavfi_default() {
    let expected = format!(
        "[0:v]setpts=PTS-STARTPTS,settb=AVTB[dis];\
         [1:v]setpts=PTS-STARTPTS,settb=AVTB[ref];\
         [dis][ref]libvmaf=shortest=true:ts_sync_mode=nearest:n_threads={THREADS}"
    );
    assert_eq!(lavfi(Vmaf::default(), None, None, None), expected);
}

#[test]
fn vmaf_lavfi_default_pix_fmt() {
    let expected = format!(
        "[0:v]format=yuv420p10le,setpts=PTS-STARTPTS,settb=AVTB[dis];\
         [1:v]format=yuv420p10le,setpts=PTS-STARTPTS,settb=AVTB[ref];\
         [dis][ref]libvmaf=shortest=true:ts_sync_mode=nearest:n_threads={THREADS}"
    );
    assert_eq!(
        lavfi(Vmaf::default(), None, Some(PixelFormat::Yuv420p10le), None),
        expected
    );
}

#[test]
fn vmaf_lavfi_include_n_threads() {
    let expected = format!(
        "[0:v]format=yuv420p,setpts=PTS-STARTPTS,settb=AVTB[dis];\
         [1:v]format=yuv420p,setpts=PTS-STARTPTS,settb=AVTB[ref];\
         [dis][ref]libvmaf=shortest=true:ts_sync_mode=nearest:log_path=output.xml:n_threads={THREADS}"
    );
    assert_eq!(
        lavfi(
            with_args(&["log_path=output.xml"]),
            None,
            Some(PixelFormat::Yuv420p),
            None
        ),
        expected
    );
}

/// Low resolution videos should be upscaled to 1080p
#[test]
fn vmaf_lavfi_small_width() {
    assert_eq!(
        lavfi(
            with_args(&["n_threads=5", "n_subsample=4"]),
            Some((1280, 720)),
            Some(PixelFormat::Yuv420p),
            None
        ),
        "[0:v]format=yuv420p,scale=1920:-1:flags=bicubic,setpts=PTS-STARTPTS,settb=AVTB[dis];\
         [1:v]format=yuv420p,scale=1920:-1:flags=bicubic,setpts=PTS-STARTPTS,settb=AVTB[ref];\
         [dis][ref]libvmaf=shortest=true:ts_sync_mode=nearest:n_threads=5:n_subsample=4"
    );
}

/// 4k videos should use 4k model
#[test]
fn vmaf_lavfi_4k() {
    assert_eq!(
        lavfi(
            with_args(&["n_threads=5", "n_subsample=4"]),
            Some((3840, 2160)),
            Some(PixelFormat::Yuv420p),
            None
        ),
        "[0:v]format=yuv420p,setpts=PTS-STARTPTS,settb=AVTB[dis];\
         [1:v]format=yuv420p,setpts=PTS-STARTPTS,settb=AVTB[ref];\
         [dis][ref]libvmaf=shortest=true:ts_sync_mode=nearest:n_threads=5:n_subsample=4:model=version=vmaf_4k_v0.6.1"
    );
}

/// >2k videos should be upscaled to 4k & use 4k model
#[test]
fn vmaf_lavfi_3k_upscale_to_4k() {
    assert_eq!(
        lavfi(
            with_args(&["n_threads=5"]),
            Some((3008, 1692)),
            Some(PixelFormat::Yuv420p),
            None
        ),
        "[0:v]format=yuv420p,scale=3840:-1:flags=bicubic,setpts=PTS-STARTPTS,settb=AVTB[dis];\
         [1:v]format=yuv420p,scale=3840:-1:flags=bicubic,setpts=PTS-STARTPTS,settb=AVTB[ref];\
         [dis][ref]libvmaf=shortest=true:ts_sync_mode=nearest:n_threads=5:model=version=vmaf_4k_v0.6.1"
    );
}

/// If user has overridden the model, don't default a vmaf width
#[test]
fn vmaf_lavfi_small_width_custom_model() {
    assert_eq!(
        lavfi(
            with_args(&["model=version=foo", "n_threads=5", "n_subsample=4"]),
            Some((1280, 720)),
            Some(PixelFormat::Yuv420p),
            None
        ),
        "[0:v]format=yuv420p,setpts=PTS-STARTPTS,settb=AVTB[dis];\
         [1:v]format=yuv420p,setpts=PTS-STARTPTS,settb=AVTB[ref];\
         [dis][ref]libvmaf=shortest=true:ts_sync_mode=nearest:model=version=foo:n_threads=5:n_subsample=4"
    );
}

#[test]
fn vmaf_lavfi_custom_model_and_width() {
    let mut vmaf = with_args(&["model=version=foo", "n_threads=5", "n_subsample=4"]);
    // if specified just do it
    vmaf.vmaf_scale = VmafScale::Custom(Resolution::try_new(123, 720).unwrap());
    assert_eq!(
        lavfi(vmaf, Some((1280, 720)), Some(PixelFormat::Yuv420p), None),
        "[0:v]format=yuv420p,scale=123:-1:flags=bicubic,setpts=PTS-STARTPTS,settb=AVTB[dis];\
         [1:v]format=yuv420p,scale=123:-1:flags=bicubic,setpts=PTS-STARTPTS,settb=AVTB[ref];\
         [dis][ref]libvmaf=shortest=true:ts_sync_mode=nearest:model=version=foo:n_threads=5:n_subsample=4"
    );
}

#[test]
fn vmaf_lavfi_1080p() {
    assert_eq!(
        lavfi(
            with_args(&["n_threads=5", "n_subsample=4"]),
            Some((1920, 1080)),
            Some(PixelFormat::Yuv420p),
            None
        ),
        "[0:v]format=yuv420p,setpts=PTS-STARTPTS,settb=AVTB[dis];\
         [1:v]format=yuv420p,setpts=PTS-STARTPTS,settb=AVTB[ref];\
         [dis][ref]libvmaf=shortest=true:ts_sync_mode=nearest:n_threads=5:n_subsample=4"
    );
}

#[test]
fn vmaf_lavfi_wide_2561x1440_selects_4k_model() {
    let lavfi = lavfi(Vmaf::default(), Some((2561, 1440)), Some(PixelFormat::Yuv420p), None);
    assert!(
        lavfi.contains("model=version=vmaf_4k_v0.6.1"),
        "2561x1440 should use the 4k model: {lavfi}"
    );
}

#[test]
fn vmaf_lavfi_ultrawide_3840x1440_selects_4k_model() {
    let lavfi = lavfi(Vmaf::default(), Some((3840, 1440)), Some(PixelFormat::Yuv420p), None);
    assert!(
        lavfi.contains("model=version=vmaf_4k_v0.6.1"),
        "3840x1440 should use the 4k model: {lavfi}"
    );
}

#[test]
fn vmaf_fps_zero_disables_override() {
    let vmaf = Vmaf {
        vmaf_fps: fps(0.0),
        ..Default::default()
    };
    assert_eq!(vmaf.fps(), None);
}

#[test]
fn vmaf_lavfi_scale_none_skips_auto_upscale() {
    let vmaf = Vmaf {
        vmaf_scale: VmafScale::Off,
        ..Default::default()
    };
    let lavfi = lavfi(vmaf, Some((1280, 720)), Some(PixelFormat::Yuv420p), None);
    assert!(
        !lavfi.contains("scale="),
        "vmaf-scale=none must disable auto upscale: {lavfi}"
    );
}

#[test]
fn vmaf_lavfi_exact_2k_boundary_uses_1k_model() {
    let lavfi = lavfi(Vmaf::default(), Some((2560, 1440)), Some(PixelFormat::Yuv420p), None);
    assert!(
        !lavfi.contains("model=version=vmaf_4k_v0.6.1"),
        "exact 2560x1440 should remain on the 1k model: {lavfi}"
    );
}

#[test]
fn vmaf_lavfi_portrait_720x1280_does_not_auto_downscale() {
    let lavfi = lavfi(Vmaf::default(), Some((720, 1280)), Some(PixelFormat::Yuv420p), None);
    assert!(
        !lavfi.contains("scale="),
        "portrait sources should not downscale to 1080p height: {lavfi}"
    );
}

#[test]
fn vmaf_fps_negative_disables_use() {
    let vmaf = Vmaf {
        vmaf_fps: fps(-1.0),
        ..Default::default()
    };
    assert_eq!(vmaf.fps(), None);
}

#[test]
fn vmaf_hash_distinguishes_and_vmaf_flag() {
    let off = Vmaf {
        and_vmaf: None,
        ..Default::default()
    };
    let on = Vmaf {
        and_vmaf: Some(true),
        ..Default::default()
    };

    let hash = |v: &Vmaf| {
        let mut h = DefaultHasher::new();
        v.hash(&mut h);
        h.finish()
    };
    assert_ne!(hash(&off), hash(&on));
}

#[test]
fn parse_vmaf_scale_rejects_zero_dimensions() {
    let err = parse_vmaf_scale("0x1080").expect_err("zero width");
    assert!(err.to_string().contains("vmaf-scale"));
    let err = parse_vmaf_scale("1920x0").expect_err("zero height");
    assert!(err.to_string().contains("vmaf-scale"));
}

#[test]
fn resolution_is_a_checked_newtype() {
    let res = Resolution::try_new(1920, 1080).expect("valid resolution");

    assert_eq!(res.width(), 1920);
    assert_eq!(res.height(), 1080);
    assert!(Resolution::try_new(0, 1080).is_err());
    assert!(Resolution::try_new(1920, 0).is_err());
    assert_eq!(Resolution::try_new(0, 0), Err(ResolutionError::Invalid));
}

#[test]
fn vmaf_phone_model_does_not_count_as_model_override() {
    let lavfi = lavfi(
        with_args(&["phone_model=1", "n_threads=5"]),
        Some((3840, 2160)),
        Some(PixelFormat::Yuv420p),
        None,
    );
    assert!(
        lavfi.contains("model=version=vmaf_4k_v0.6.1"),
        "phone_model=1 must not suppress automatic 4k model selection: {lavfi}"
    );
}

#[test]
fn vmaf_scales_read_back() {
    for scale in [
        VmafScale::Off,
        VmafScale::Auto,
        VmafScale::Custom(Resolution::try_new(1280, 720).unwrap()),
        VmafScale::Custom(Resolution::try_new(u32::MAX, 1).unwrap()),
    ] {
        assert_eq!(parse_vmaf_scale(&scale.to_text()), Ok(scale));
    }
    assert_eq!(VmafScale::Off.to_text(), "none");
    assert!(parse_vmaf_scale("1920").is_err());
    assert!(parse_vmaf_scale("axb").is_err());
}

#[test]
fn minimal_scale_keeps_one_side() {
    assert_eq!(minimally_scale((1280, 720), (1920, 1080)), (1920, -1));
    assert_eq!(minimally_scale((720, 1280), (1920, 1080)), (-1, 1080));
    assert_eq!(auto_upscale((1280, 720), (1920, 1080)), Some((1920, -1)));
    assert_eq!(auto_upscale((1920, 1080), (1920, 1080)), None);
    assert_eq!(auto_upscale((2560, 720), (1920, 1080)), None);
}

#[test]
fn models_come_from_the_arguments() {
    let model = |args: &[&str]| {
        let args: Vec<VmafArg> = args.iter().map(|a| VmafArg::new(a)).collect();
        VmafModel::from_args(&args)
    };
    assert_eq!(model(&[]), None);
    assert_eq!(model(&["n_threads=4"]), None);
    assert_eq!(model(&["model=version=vmaf_v0.6.1"]), Some(VmafModel::Vmaf1K));
    assert_eq!(model(&["model=version=vmaf_4k_v0.6.1"]), Some(VmafModel::Vmaf4K));
    assert_eq!(model(&["model=path=x"]), Some(VmafModel::Custom));
    assert_eq!(
        model(&["model=version=vmaf_v0.6.1", "a:model=b"]),
        Some(VmafModel::Custom)
    );
}
