//! Arguments of the VMAF analysis.
use crate::command::args::encode::PixelFormat;
use crate::command::args::FrameRateOverride;
use crate::float::Single;
use crate::text;
use vstd::prelude::*;

verus! {

broadcast use vstd::string::group_string_axioms;

// ---- resolutions ----

/// A width and a height of one pixel at least.
#[derive(Debug, Clone, Copy, PartialEq, Eq, Hash, Structural)]
pub struct Resolution {
    width: u32,
    height: u32,
}

/// Why there is no such resolution.
#[derive(Debug, Clone, Copy, PartialEq, Eq, Structural)]
pub enum ResolutionError {
    Invalid,
}

impl ResolutionError {
    /// What went wrong.
    pub fn message(&self) -> (r: &'static str)
        ensures
            r@ == "resolution width and height must be positive"@,
    {
        "resolution width and height must be positive"
    }
}

impl Resolution {
    /// The width in pixels.
    pub closed spec fn w(self) -> u32 {
        self.width
    }

    /// The height in pixels.
    pub closed spec fn h(self) -> u32 {
        self.height
    }

    #[verifier::type_invariant]
    closed spec fn positive(self) -> bool {
        self.width > 0 && self.height > 0
    }

    /// The resolution with these dimensions, unless one of them is zero.
    pub fn try_new(width: u32, height: u32) -> (r: Result<Self, ResolutionError>)
        ensures
            match r {
                Ok(res) => width > 0 && height > 0 && res.w() == width && res.h() == height,
                Err(e) => (width == 0 || height == 0) && e == ResolutionError::Invalid,
            },
    {
        if width == 0 || height == 0 {
            Err(ResolutionError::Invalid)
        } else {
            Ok(Self { width, height })
        }
    }

    /// The width in pixels.
    pub fn width(self) -> (r: u32)
        ensures
            r == self.w(),
            r > 0,
    {
        proof {
            use_type_invariant(&self);
        }
        self.width
    }

    /// The height in pixels.
    pub fn height(self) -> (r: u32)
        ensures
            r == self.h(),
            r > 0,
    {
        proof {
            use_type_invariant(&self);
        }
        self.height
    }
}

// ---- scaling ----

/// The number that the same 32 bits stand for as a signed number.
pub open spec fn signed(n: u32) -> int {
    if n < 0x8000_0000 {
        n as int
    } else {
        n - 0x1_0000_0000
    }
}

fn to_signed(n: u32) -> (r: i32)
    ensures
        r == signed(n),
{
    if n < 0x8000_0000 {
        n as i32
    } else {
        (n as i64 - 0x1_0000_0000) as i32
    }
}

/// The ffmpeg scale by which `from` meets one bound of `target`: the dimension
/// that is the larger part of its bound is set, the other one follows (-1).
pub open spec fn minimal_scale(from: (u32, u32), target: (u32, u32)) -> (int, int) {
    if from.1 * target.0 > from.0 * target.1 {
        (-1, signed(target.1))
    } else {
        (signed(target.0), -1)
    }
}

/// Return the smallest ffmpeg vf `(w, h)` scale values so that at least one of the
/// `target_w` or `target_h` bounds are met.
pub fn minimally_scale(from: (u32, u32), target: (u32, u32)) -> (r: (i32, i32))
    ensures
        (r.0 as int, r.1 as int) == minimal_scale(from, target),
{
    assert(from.1 * target.0 <= u32::MAX * u32::MAX) by (nonlinear_arith)
        requires
            from.1 <= u32::MAX,
            target.0 <= u32::MAX,
    ;
    assert(from.0 * target.1 <= u32::MAX * u32::MAX) by (nonlinear_arith)
        requires
            from.0 <= u32::MAX,
            target.1 <= u32::MAX,
    ;
    if from.1 as u64 * target.0 as u64 > from.0 as u64 * target.1 as u64 {
        (-1, to_signed(target.1))  // scale vertically
    } else {
        (to_signed(target.0), -1)  // scale horizontally
    }
}

/// The minimal scale, if it makes the video larger.
pub open spec fn upscale(from: (u32, u32), target: (u32, u32)) -> Option<(int, int)> {
    let s = minimal_scale(from, target);
    if s.1 == -1 && s.0 > signed(from.0) {
        Some(s)
    } else if s.0 == -1 && s.1 > signed(from.1) {
        Some(s)
    } else {
        None
    }
}

/// The ffmpeg scale values to make a video larger, if it is smaller than the
/// target.
pub fn auto_upscale(from: (u32, u32), target: (u32, u32)) -> (r: Option<(i32, i32)>)
    ensures
        match r {
            Some(s) => upscale(from, target) == Some((s.0 as int, s.1 as int)),
            None => upscale(from, target) is None,
        },
{
    let s = minimally_scale(from, target);
    if s.1 == -1 && s.0 > to_signed(from.0) {
        Some(s)
    } else if s.0 == -1 && s.1 > to_signed(from.1) {
        Some(s)
    } else {
        None
    }
}

/// Whether and how videos are scaled for the analysis.
#[derive(Debug, Clone, Copy, PartialEq, Eq, Hash, Structural)]
pub enum VmafScale {
    Off,
    Auto,
    Custom(Resolution),
}

impl Default for VmafScale {
    fn default() -> (r: Self)
        ensures
            r == VmafScale::Auto,
    {
        Self::Auto
    }
}

/// The number of 32 bits that `s` spells.
pub open spec fn parsed_u32(s: Seq<char>) -> Option<u32> {
    match text::parsed_u64(s) {
        Some(n) => if n <= u32::MAX {
            Some(n as u32)
        } else {
            None
        },
        None => None,
    }
}

fn parse_u32(s: &str) -> (r: Option<u32>)
    ensures
        r == parsed_u32(s@),
{
    match text::parse_u64(s) {
        Some(n) => if n <= u32::MAX as u64 {
            Some(n as u32)
        } else {
            None
        },
        None => None,
    }
}

/// The dimensions that a text such as `1920x1080` spells.
pub open spec fn spelled_dims(s: Seq<char>) -> Option<(u32, u32)> {
    match text::split_at_first(s, 'x') {
        Some((w, h)) => match (parsed_u32(w), parsed_u32(h)) {
            (Some(width), Some(height)) => if width > 0 && height > 0 {
                Some((width, height))
            } else {
                None
            },
            _ => None,
        },
        None => None,
    }
}

/// Reads `none`, `auto` or a resolution.
pub fn parse_vmaf_scale(vs: &str) -> (r: Result<VmafScale, &'static str>)
    ensures
        vs@ == "none"@ ==> r == Ok::<VmafScale, &'static str>(VmafScale::Off),
        vs@ == "auto"@ ==> r == Ok::<VmafScale, &'static str>(VmafScale::Auto),
        vs@ != "none"@ && vs@ != "auto"@ ==> match r {
            Ok(scale) => scale matches VmafScale::Custom(res) && spelled_dims(vs@) == Some(
                (res.w(), res.h()),
            ),
            Err(e) => spelled_dims(vs@) is None && e@
                == "vmaf-scale must be 'none', 'auto' or WxH format e.g. '1920x1080'"@,
        },
{
    let err: &'static str = "vmaf-scale must be 'none', 'auto' or WxH format e.g. '1920x1080'";
    proof {
        reveal_strlit("none");
        reveal_strlit("auto");
        assert("none"@[0] != "auto"@[0]);
    }
    if text::same(vs, "none") {
        return Ok(VmafScale::Off);
    }
    if text::same(vs, "auto") {
        return Ok(VmafScale::Auto);
    }
    let (w, h) = match text::split_once(vs, 'x') {
        Some(parts) => parts,
        None => return Err(err),
    };
    match (parse_u32(w.as_str()), parse_u32(h.as_str())) {
        (Some(width), Some(height)) => match Resolution::try_new(width, height) {
            Ok(res) => Ok(VmafScale::Custom(res)),
            Err(_) => Err(err),
        },
        _ => Err(err),
    }
}

impl VmafScale {
    /// The text of the scale.
    pub open spec fn spelling(self) -> Seq<char> {
        match self {
            VmafScale::Off => "none"@,
            VmafScale::Auto => "auto"@,
            VmafScale::Custom(res) => text::dec(res.w() as nat) + "x"@ + text::dec(res.h() as nat),
        }
    }

    /// The text of the scale.
    pub fn to_text(&self) -> (r: String)
        ensures
            r@ == self.spelling(),
    {
        match self {
            Self::Off => "none".to_owned(),
            Self::Auto => "auto".to_owned(),
            Self::Custom(res) => {
                let w = text::dec_string(res.width() as u64);
                let h = text::dec_string(res.height() as u64);
                text::cat3(w.as_str(), "x", h.as_str())
            },
        }
    }
}

/// What is written of a custom scale spells its resolution.
pub proof fn law_custom_scale_round_trip(scale: VmafScale)
    requires
        scale matches VmafScale::Custom(res) && res.w() > 0 && res.h() > 0,
    ensures
        scale matches VmafScale::Custom(res) && spelled_dims(scale.spelling()) == Some(
            (res.w(), res.h()),
        ),
{
    let res = scale->Custom_0;
    let w = text::dec(res.w() as nat);
    let h = text::dec(res.h() as nat);
    let s = scale.spelling();
    reveal_strlit("x");
    text::lemma_dec_spells(res.w() as nat);
    text::lemma_dec_spells(res.h() as nat);
    text::lemma_index_from(s, 'x', 0);
    assert(s[w.len() as int] == 'x');
    assert forall|i: int| 0 <= i < w.len() implies s[i] != 'x' by {
        assert(s[i] == w[i]);
        assert(text::is_digit(w[i]));
    }
    let i = text::index_of(s, 'x')->0;
    assert(i == w.len());
    assert(s.take(i) =~= w);
    assert(s.skip(i + 1) =~= h);
    text::law_dec_round_trip(res.w() as u64);
    text::law_dec_round_trip(res.h() as u64);
}

// ---- libvmaf arguments ----

/// An argument of libvmaf, such as `n_subsample=4`.
#[derive(Debug, PartialEq, Eq, Hash)]
pub struct VmafArg(String);

impl View for VmafArg {
    type V = Seq<char>;

    closed spec fn view(&self) -> Seq<char> {
        self.0@
    }
}

/// The texts of arguments.
pub open spec fn arg_views(v: Seq<VmafArg>) -> Seq<Seq<char>> {
    v.map_values(|a: VmafArg| a@)
}

/// Whether a part of the argument, between colons, starts with `model=`.
pub open spec fn overrides_model(arg: Seq<char>) -> bool {
    exists|i: int|
        #![trigger text::occurs_at(arg, "model="@, i)]
        0 <= i && text::occurs_at(arg, "model="@, i) && (i == 0 || arg[i - 1] == ':')
}

/// True when a libvmaf arg explicitly selects a model (not e.g. `phone_model=1`).
pub fn is_vmaf_model_override(arg: &str) -> (r: bool)
    ensures
        r == overrides_model(arg@),
{
    let v = text::chars_of(arg);
    let pat = text::chars_of("model=");
    let mut i: usize = 0;
    while i < v.len()
        invariant
            i <= v.len(),
            v@ == arg@,
            pat@ == "model="@,
            forall|j: int|
                0 <= j < i ==> !(#[trigger] text::occurs_at(arg@, "model="@, j) && (j == 0 || arg@[j
                    - 1] == ':')),
        decreases v.len() - i,
    {
        let begins = i == 0 || v[i - 1] == ':';
        if begins && text::matches_at(v.as_slice(), pat.as_slice(), i) {
            assert(text::occurs_at(arg@, "model="@, i as int));
            return true;
        }
        i += 1;
    }
    proof {
        reveal_strlit("model=");
    }
    false
}

impl VmafArg {
    /// The argument with this text.
    pub fn new(arg: &str) -> (r: Self)
        ensures
            r@ == arg@,
    {
        Self(arg.to_owned())
    }

    /// The same argument again.
    pub fn copy(&self) -> (r: Self)
        ensures
            r@ == self@,
    {
        Self(self.0.clone())
    }

    /// The text of the argument.
    pub fn as_str(&self) -> (r: &str)
        ensures
            r@ == self@,
    {
        self.0.as_str()
    }

    /// Whether the argument selects a model.
    pub fn is_model_override(&self) -> (r: bool)
        ensures
            r == overrides_model(self@),
    {
        is_vmaf_model_override(self.as_str())
    }
}

/// Any text is an argument.
pub fn parse_vmaf_arg(arg: &str) -> (r: VmafArg)
    ensures
        r@ == arg@,
{
    VmafArg::new(arg)
}

/// The model by which the analysis scores.
#[derive(Debug, Clone, Copy, PartialEq, Eq, Hash, Structural)]
pub enum VmafModel {
    /// Default 1080p model.
    Vmaf1K,
    /// 4k model.
    Vmaf4K,
    /// Some other user specified model.
    Custom,
}

/// The arguments that select a model.
pub open spec fn model_args(args: Seq<Seq<char>>) -> Seq<Seq<char>>
    decreases args.len(),
{
    if args.len() == 0 {
        Seq::empty()
    } else if overrides_model(args.last()) {
        model_args(args.drop_last()).push(args.last())
    } else {
        model_args(args.drop_last())
    }
}

/// The model that arguments select, if one does.
pub open spec fn selected_model(args: Seq<Seq<char>>) -> Option<VmafModel> {
    let chosen = model_args(args);
    if chosen.len() == 0 {
        None
    } else if chosen.len() == 1 && text::has_suffix(chosen[0], "version=vmaf_v0.6.1"@) {
        Some(VmafModel::Vmaf1K)
    } else if chosen.len() == 1 && text::has_suffix(chosen[0], "version=vmaf_4k_v0.6.1"@) {
        Some(VmafModel::Vmaf4K)
    } else {
        Some(VmafModel::Custom)
    }
}

impl VmafModel {
    /// The model that arguments select, if one does.
    pub fn from_args(args: &[VmafArg]) -> (r: Option<Self>)
        ensures
            r == selected_model(arg_views(args@)),
    {
        let mut found: Option<usize> = None;
        let mut many = false;
        let mut i: usize = 0;
        let ghost views = arg_views(args@);
        while i < args.len()
            invariant
                i <= args.len(),
                views == arg_views(args@),
                match found {
                    None => model_args(views.take(i as int)).len() == 0 && !many,
                    Some(at) => at < i && model_args(views.take(i as int)).len() > 0 && model_args(
                        views.take(i as int),
                    )[0] == args@[at as int]@ && many == (model_args(
                        views.take(i as int),
                    ).len() > 1),
                },
            decreases args.len() - i,
        {
            proof {
                assert(views.take(i + 1).drop_last() =~= views.take(i as int));
                assert(views.take(i + 1).last() == args@[i as int]@);
            }
            if args[i].is_model_override() {
                if found.is_some() {
                    many = true;
                } else {
                    found = Some(i);
                }
            }
            i += 1;
        }
        assert(views.take(i as int) =~= views);
        match found {
            None => None,
            Some(at) => {
                if many {
                    Some(Self::Custom)
                } else if text::ends_with(args[at].as_str(), "version=vmaf_v0.6.1") {
                    Some(Self::Vmaf1K)
                } else if text::ends_with(args[at].as_str(), "version=vmaf_4k_v0.6.1") {
                    Some(Self::Vmaf4K)
                } else {
                    Some(Self::Custom)
                }
            },
        }
    }
}

// ---- configuration ----

/// Common vmaf options.
#[derive(Debug, PartialEq, Eq, Hash)]
pub struct Vmaf {
    /// Set to calculate vmaf when it would otherwise not be, e.g. when calculating xpsnr.
    pub and_vmaf: Option<bool>,
    /// Additional vmaf args, e.g. `n_threads=8`.
    pub vmaf_args: Vec<VmafArg>,
    /// Video resolution scale to use in VMAF analysis.
    pub vmaf_scale: VmafScale,
    /// Frame rate override used to analyse both reference & distorted videos.
    /// Maps to ffmpeg `-r` input arg.
    pub vmaf_fps: FrameRateOverride,
}

impl Default for Vmaf {
    /// No arguments, automatic scaling, and 25 frames per second.
    fn default() -> (r: Self)
        ensures
            r.and_vmaf is None,
            r.vmaf_args@.len() == 0,
            r.vmaf_scale == VmafScale::Auto,
            r.vmaf_fps.rate() == Some(Single { bits: 0x41c8_0000 }),
    {
        Self {
            and_vmaf: None,
            vmaf_args: Vec::new(),
            vmaf_scale: VmafScale::Auto,
            vmaf_fps: FrameRateOverride::new(Single::from_bits(0x41c8_0000)),
        }
    }
}

impl Vmaf {
    /// The frame rate override, if any.
    pub fn fps(&self) -> (r: Option<Single>)
        ensures
            r == self.vmaf_fps.rate(),
    {
        self.vmaf_fps.fps()
    }
}

/// Normalized vmaf configuration.
#[derive(Debug, PartialEq, Eq, Hash)]
pub struct VmafConfig {
    pub and_vmaf: Option<bool>,
    pub vmaf_args: Vec<VmafArg>,
    pub vmaf_scale: VmafScale,
    pub vmaf_fps: FrameRateOverride,
}

/// The scale values that a configuration gives.
pub open spec fn chosen_scale(
    scale: VmafScale,
    model: VmafModel,
    distorted: Option<(u32, u32)>,
) -> Option<(int, int)> {
    match (scale, distorted) {
        (VmafScale::Auto, Some((w, h))) => if model == VmafModel::Vmaf1K && w < 1728 && h < 972 {
            upscale((w, h), (1920, 1080))
        } else if model == VmafModel::Vmaf4K && w < 3456 && h < 1944 {
            upscale((w, h), (3840, 2160))
        } else {
            None
        },
        (VmafScale::Custom(res), Some((w, h))) => Some(minimal_scale((w, h), (res.w(), res.h()))),
        (VmafScale::Custom(res), None) => Some((signed(res.w()), signed(res.h()))),
        _ => None,
    }
}

/// The arguments with a number of threads, unless one of them says it.
pub open spec fn threaded_args(args: Seq<Seq<char>>, threads: nat) -> Seq<Seq<char>> {
    if exists|i: int| 0 <= i < args.len() && #[trigger] text::contains(args[i], "n_threads"@) {
        args
    } else {
        args.push("n_threads="@ + text::dec(threads))
    }
}

/// The model that is used, and whether it is named because of the resolution.
pub open spec fn used_model(args: Seq<Seq<char>>, distorted: Option<(u32, u32)>) -> (
    Option<VmafModel>,
    bool,
) {
    match (selected_model(args), distorted) {
        (None, Some((w, h))) => if w > 2560 || h > 1440 {
            (Some(VmafModel::Vmaf4K), true)
        } else {
            (None, false)
        },
        (model, _) => (model, false),
    }
}

/// A filter with a comma behind it, unless there is one, or nothing.
pub open spec fn filter_prefix(vfilter: Option<Seq<char>>) -> Seq<char> {
    match vfilter {
        None => Seq::empty(),
        Some(vf) => if text::has_suffix(vf, ","@) {
            vf
        } else {
            vf + ","@
        },
    }
}

/// The filter that converts to a pixel format, or nothing.
pub open spec fn format_prefix(pix_fmt: Option<PixelFormat>) -> Seq<char> {
    match pix_fmt {
        None => Seq::empty(),
        Some(f) => "format="@ + f.name() + ","@,
    }
}

/// The filter that scales, or nothing.
pub open spec fn scale_prefix(scale: Option<(int, int)>) -> Seq<char> {
    match scale {
        None => Seq::empty(),
        Some((w, h)) => "scale="@ + text::dec_int(w) + ":"@ + text::dec_int(h)
            + ":flags=bicubic,"@,
    }
}

/// The filter graph of a VMAF analysis.
pub open spec fn lavfi(
    args: Seq<Seq<char>>,
    scale: VmafScale,
    distorted: Option<(u32, u32)>,
    pix_fmt: Option<PixelFormat>,
    ref_vfilter: Option<Seq<char>>,
    threads: nat,
) -> Seq<char> {
    let all = threaded_args(args, threads);
    let (model, named) = used_model(all, distorted);
    let format = format_prefix(pix_fmt);
    let scaling = scale_prefix(
        chosen_scale(
            scale,
            match model {
                Some(m) => m,
                None => VmafModel::Vmaf1K,
            },
            distorted,
        ),
    );
    "[0:v]"@ + format + scaling + "setpts=PTS-STARTPTS,settb=AVTB[dis];[1:v]"@ + format
        + filter_prefix(ref_vfilter) + scaling + "setpts=PTS-STARTPTS,settb=AVTB[ref];[dis][ref]"@
        + "libvmaf=shortest=true:ts_sync_mode=nearest:"@ + text::joined(all, ":"@) + if named {
        ":model=version=vmaf_4k_v0.6.1"@
    } else {
        Seq::empty()
    }
}

impl VmafConfig {
    /// The configuration with these options.
    pub fn from_args(vmaf: Vmaf) -> (r: Self)
        ensures
            r.and_vmaf == vmaf.and_vmaf,
            r.vmaf_args == vmaf.vmaf_args,
            r.vmaf_scale == vmaf.vmaf_scale,
            r.vmaf_fps == vmaf.vmaf_fps,
    {
        Self {
            and_vmaf: vmaf.and_vmaf,
            vmaf_args: vmaf.vmaf_args,
            vmaf_scale: vmaf.vmaf_scale,
            vmaf_fps: vmaf.vmaf_fps,
        }
    }

    /// The frame rate override, if any.
    pub fn fps(&self) -> (r: Option<Single>)
        ensures
            r == self.vmaf_fps.rate(),
    {
        self.vmaf_fps.fps()
    }

    /// The scale values for a model and the resolution of the distorted video.
    pub fn vf_scale(&self, model: VmafModel, distorted_res: Option<(u32, u32)>) -> (r: Option<
        (i32, i32),
    >)
        ensures
            match r {
                Some(s) => chosen_scale(self.vmaf_scale, model, distorted_res) == Some(
                    (s.0 as int, s.1 as int),
                ),
                None => chosen_scale(self.vmaf_scale, model, distorted_res) is None,
            },
    {
        match (self.vmaf_scale, distorted_res) {
            (VmafScale::Auto, Some((w, h))) => match model {
                // upscale small resolutions to 1k for use with the 1k model
                VmafModel::Vmaf1K => if w < 1728 && h < 972 {
                    auto_upscale((w, h), (1920, 1080))
                } else {
                    None
                },
                // upscale small resolutions to 4k for use with the 4k model
                VmafModel::Vmaf4K => if w < 3456 && h < 1944 {
                    auto_upscale((w, h), (3840, 2160))
                } else {
                    None
                },
                VmafModel::Custom => None,
            },
            (VmafScale::Custom(res), Some((w, h))) => Some(
                minimally_scale((w, h), (res.width(), res.height())),
            ),
            (VmafScale::Custom(res), None) => Some(
                (to_signed(res.width()), to_signed(res.height())),
            ),
            _ => None,
        }
    }

    /// The texts of the arguments, with a number of threads where none says it.
    fn arg_texts(&self, threads: u64) -> (r: Vec<String>)
        ensures
            text::views(r@) == threaded_args(arg_views(self.vmaf_args@), threads as nat),
    {
        let mut out: Vec<String> = Vec::new();
        let mut said = false;
        let mut i: usize = 0;
        let ghost views = arg_views(self.vmaf_args@);
        while i < self.vmaf_args.len()
            invariant
                i <= self.vmaf_args.len(),
                views == arg_views(self.vmaf_args@),
                text::views(out@) =~= views.take(i as int),
                said == (exists|j: int|
                    0 <= j < i && #[trigger] text::contains(views[j], "n_threads"@)),
            decreases self.vmaf_args.len() - i,
        {
            let arg = self.vmaf_args[i].as_str();
            assert(arg@ == views[i as int]);
            if text::contains_str(arg, "n_threads") {
                said = true;
            }
            let ghost before = text::views(out@);
            out.push(arg.to_owned());
            assert(text::views(out@) =~= before.push(arg@));
            i += 1;
        }
        assert(views.take(i as int) =~= views);
        if !said {
            // default n_threads to all cores
            let n = text::dec_string(threads);
            let ghost before = text::views(out@);
            out.push(text::cat2("n_threads=", n.as_str()));
            assert(text::views(out@) =~= before.push("n_threads="@ + text::dec(threads as nat)));
        }
        out
    }

    /// Returns ffmpeg `filter_complex`/`lavfi` value for calculating vmaf.
    /// `threads` is the number of threads of the machine.
    pub fn ffmpeg_lavfi(
        &self,
        distorted_res: Option<(u32, u32)>,
        pix_fmt: Option<PixelFormat>,
        ref_vfilter: Option<&str>,
        threads: u64,
    ) -> (r: String)
        ensures
            r@ == lavfi(
                arg_views(self.vmaf_args@),
                self.vmaf_scale,
                distorted_res,
                pix_fmt,
                match ref_vfilter {
                    Some(vf) => Some(vf@),
                    None => None,
                },
                threads as nat,
            ),
    {
        let args = self.arg_texts(threads);
        let mut typed: Vec<VmafArg> = Vec::new();
        let mut i: usize = 0;
        while i < args.len()
            invariant
                i <= args.len(),
                typed@.len() == i,
                forall|j: int| 0 <= j < i ==> (#[trigger] typed@[j])@ == args@[j]@,
            decreases args.len() - i,
        {
            typed.push(VmafArg::new(args[i].as_str()));
            i += 1;
        }
        assert(arg_views(typed@) =~= text::views(args@));
        let mut model = VmafModel::from_args(typed.as_slice());
        let mut named = false;
        if let Some((w, h)) = distorted_res {
            if model.is_none() && (w > 2560 || h > 1440) {
                // for >2k resolutions use 4k model
                named = true;
                model = Some(VmafModel::Vmaf4K);
            }
        }
        let ref_vf = match ref_vfilter {
            None => String::new(),
            Some(vf) => if text::ends_with(vf, ",") {
                vf.to_owned()
            } else {
                text::cat2(vf, ",")
            },
        };
        let format = match pix_fmt {
            None => String::new(),
            Some(f) => text::cat3("format=", f.as_str(), ","),
        };
        let used = match model {
            Some(m) => m,
            None => VmafModel::Vmaf1K,
        };
        let scale = match self.vf_scale(used, distorted_res) {
            None => String::new(),
            Some(s) => {
                let w = text::dec_int_string(s.0 as i64);
                let h = text::dec_int_string(s.1 as i64);
                let mut out = text::cat4("scale=", w.as_str(), ":", h.as_str());
                out.append(":flags=bicubic,");
                out
            },
        };
        // * Add reference-vfilter if any
        // * convert both streams to common pixel format
        // * scale to vmaf width if necessary
        // * sync presentation timestamp
        let mut out = text::cat4(
            "[0:v]",
            format.as_str(),
            scale.as_str(),
            "setpts=PTS-STARTPTS,settb=AVTB[dis];[1:v]",
        );
        out.append(format.as_str());
        out.append(ref_vf.as_str());
        out.append(scale.as_str());
        out.append("setpts=PTS-STARTPTS,settb=AVTB[ref];[dis][ref]");
        out.append("libvmaf=shortest=true:ts_sync_mode=nearest:");
        let joined = text::join(args.as_slice(), ":");
        out.append(joined.as_str());
        if named {
            out.append(":model=version=vmaf_4k_v0.6.1");
        } else {
            assert(out@ + Seq::<char>::empty() =~= out@);
        }
        out
    }
}

/// Automatic scaling never makes a video smaller: the dimension that is set
/// is larger than the video's own.
pub proof fn law_auto_never_downscales(model: VmafModel, w: u32, h: u32)
    requires
        w < 0x8000_0000,
        h < 0x8000_0000,
    ensures
        chosen_scale(VmafScale::Auto, model, Some((w, h))) matches Some(s) ==> s.0 > w && s.1 == -1
            || s.0 == -1 && s.1 > h,
{
}

/// Without a model among the arguments the resolution alone selects the 4k
/// model.
pub proof fn law_resolution_selects_4k(args: Seq<Seq<char>>, w: u32, h: u32)
    requires
        model_args(args).len() == 0,
    ensures
        used_model(args, Some((w, h))).1 <==> w > 2560 || h > 1440,
{
}

/// Both videos reach libvmaf in one size: whatever filter the reference has, the
/// filters of the distorted video and those of the reference end with the same
/// scaling, or both with none. The reference's filter stands before that, and
/// both begin with the same pixel format.
pub proof fn law_both_videos_in_one_size(
    args: Seq<Seq<char>>,
    scale: VmafScale,
    distorted: Option<(u32, u32)>,
    pix_fmt: Option<PixelFormat>,
    ref_vfilter: Option<Seq<char>>,
    threads: nat,
)
    ensures
        ({
            let model = match used_model(threaded_args(args, threads), distorted).0 {
                Some(m) => m,
                None => VmafModel::Vmaf1K,
            };
            let size = match chosen_scale(scale, model, distorted) {
                Some((w, h)) => "scale="@ + text::dec_int(w) + ":"@ + text::dec_int(h)
                    + ":flags=bicubic,"@,
                None => Seq::empty(),
            };
            let format = match pix_fmt {
                Some(f) => "format="@ + f.name() + ","@,
                None => Seq::empty(),
            };
            let filter = match ref_vfilter {
                Some(f) => if f.len() > 0 && f.last() == ',' {
                    f
                } else {
                    f.push(',')
                },
                None => Seq::empty(),
            };
            let end = size + "setpts=PTS-STARTPTS,settb=AVTB"@;
            text::has_prefix(
                lavfi(args, scale, distorted, pix_fmt, ref_vfilter, threads),
                "[0:v]"@ + (format + end) + "[dis];[1:v]"@ + (format + filter + end)
                    + "[ref];[dis][ref]libvmaf="@,
            )
        }),
{
    let all = threaded_args(args, threads);
    let (model, named) = used_model(all, distorted);
    let m = match model {
        Some(m) => m,
        None => VmafModel::Vmaf1K,
    };
    let size = scale_prefix(chosen_scale(scale, m, distorted));
    let format = format_prefix(pix_fmt);
    let filter = filter_prefix(ref_vfilter);
    reveal_strlit(",");
    if let Some(f) = ref_vfilter {
        assert(f.push(',') =~= f + ","@);
        if f.len() > 0 {
            assert(text::has_suffix(f, ","@) <==> f.last() == ',') by {
                assert(f.subrange(f.len() - 1, f.len() as int) =~= seq![f.last()]);
                assert(","@ =~= seq![',']);
                assert(","@[0] == ',');
            }
        }
    }
    reveal_strlit("setpts=PTS-STARTPTS,settb=AVTB[dis];[1:v]");
    reveal_strlit("setpts=PTS-STARTPTS,settb=AVTB[ref];[dis][ref]");
    reveal_strlit("setpts=PTS-STARTPTS,settb=AVTB");
    reveal_strlit("[dis];[1:v]");
    reveal_strlit("[ref];[dis][ref]libvmaf=");
    reveal_strlit("libvmaf=shortest=true:ts_sync_mode=nearest:");
    reveal_strlit("shortest=true:ts_sync_mode=nearest:");
    reveal_strlit("libvmaf=");
    reveal_strlit("[ref];[dis][ref]");
    let begin = "setpts=PTS-STARTPTS,settb=AVTB"@;
    assert("setpts=PTS-STARTPTS,settb=AVTB[dis];[1:v]"@ =~= begin + "[dis];[1:v]"@);
    assert("setpts=PTS-STARTPTS,settb=AVTB[ref];[dis][ref]"@ =~= begin + "[ref];[dis][ref]"@);
    assert("libvmaf=shortest=true:ts_sync_mode=nearest:"@ =~= "libvmaf="@
        + "shortest=true:ts_sync_mode=nearest:"@);
    assert("[ref];[dis][ref]libvmaf="@ =~= "[ref];[dis][ref]"@ + "libvmaf="@);
    lemma_graph(
        format,
        size,
        filter,
        begin,
        "[dis];[1:v]"@,
        "[ref];[dis][ref]"@,
        "libvmaf="@,
        "shortest=true:ts_sync_mode=nearest:"@,
        text::joined(all, ":"@),
        if named {
            ":model=version=vmaf_4k_v0.6.1"@
        } else {
            Seq::empty()
        },
    );
}

proof fn lemma_graph(
    format: Seq<char>,
    size: Seq<char>,
    filter: Seq<char>,
    begin: Seq<char>,
    a: Seq<char>,
    b: Seq<char>,
    c: Seq<char>,
    d: Seq<char>,
    args: Seq<char>,
    model: Seq<char>,
)
    ensures
        text::has_prefix(
            "[0:v]"@ + format + size + (begin + a) + format + filter + size + (begin + b) + (c + d)
                + args + model,
            "[0:v]"@ + (format + (size + begin)) + a + (format + filter + (size + begin)) + (b + c),
        ),
        text::has_suffix(
            "[0:v]"@ + format + size + (begin + a) + format + filter + size + (begin + b) + (c + d)
                + args + model,
            (c + d) + args + model,
        ),
{
    let o = "[0:v]"@;
    let all = o + format + size + (begin + a) + format + filter + size + (begin + b) + (c + d)
        + args + model;
    let front = o + (format + (size + begin)) + a + (format + filter + (size + begin)) + (b + c);
    let f1 = o + format + size + (begin + a);
    assert(f1 =~= o + (format + (size + begin)) + a);
    let f2 = f1 + format + filter + size + (begin + b);
    assert(f2 =~= f1 + (format + filter + (size + begin)) + b);
    assert(f2 + c =~= front);
    assert(all =~= front + (d + args + model));
    assert(all.subrange(0, front.len() as int) =~= front);
    let back = (c + d) + args + model;
    assert(all =~= f2 + back);
    assert(all.subrange(all.len() - back.len(), all.len() as int) =~= back);
}

/// libvmaf gets every argument that is given, a number of threads where none of
/// them says it, and the 4k model where the resolution asks for it and no model
/// is given. Frames are matched by their nearest time, and the shorter video
/// ends the analysis.
pub proof fn law_libvmaf_gets_its_arguments(
    args: Seq<Seq<char>>,
    scale: VmafScale,
    distorted: Option<(u32, u32)>,
    pix_fmt: Option<PixelFormat>,
    ref_vfilter: Option<Seq<char>>,
    threads: nat,
)
    ensures
        ({
            let told = exists|i: int|
                0 <= i < args.len() && #[trigger] text::contains(args[i], "n_threads"@);
            let all = if told {
                args
            } else {
                args + seq!["n_threads="@ + text::dec(threads)]
            };
            let large = match distorted {
                Some((w, h)) => w > 2560 || h > 1440,
                None => false,
            };
            let named = model_args(all).len() == 0 && large;
            text::has_suffix(
                lavfi(args, scale, distorted, pix_fmt, ref_vfilter, threads),
                "libvmaf=shortest=true:ts_sync_mode=nearest:"@ + text::joined(all, ":"@) + (
                if named {
                    ":model=version=vmaf_4k_v0.6.1"@
                } else {
                    Seq::empty()
                }),
            )
        }),
{
    let all = threaded_args(args, threads);
    assert(args.push("n_threads="@ + text::dec(threads)) =~= args + seq![
        "n_threads="@ + text::dec(threads),
    ]);
    let whole = lavfi(args, scale, distorted, pix_fmt, ref_vfilter, threads);
    let back = "libvmaf=shortest=true:ts_sync_mode=nearest:"@ + text::joined(all, ":"@) + (
    if used_model(all, distorted).1 {
        ":model=version=vmaf_4k_v0.6.1"@
    } else {
        Seq::empty()
    });
    assert(whole.subrange(whole.len() - back.len(), whole.len() as int) =~= back);
}

/// Scaling keeps the shape of a video: one dimension is set and the other one
/// follows, so that the video fits into the resolution that is asked for. A
/// video of unknown size is scaled to just that resolution, and without scaling
/// no video is.
pub proof fn law_scale_fits_into_the_target(model: VmafModel, res: Resolution, w: u32, h: u32)
    requires
        0 < w,
        0 < h,
        res.w() < 0x8000_0000,
        res.h() < 0x8000_0000,
    ensures
        chosen_scale(VmafScale::Off, model, Some((w, h))) is None,
        chosen_scale(VmafScale::Off, model, None) is None,
        chosen_scale(VmafScale::Auto, model, None) is None,
        chosen_scale(VmafScale::Custom(res), model, None) == Some(
            (res.w() as int, res.h() as int),
        ),
        match chosen_scale(VmafScale::Custom(res), model, Some((w, h))) {
            Some((x, y)) => {
                ||| x == -1 && y == res.h() && w * y < res.w() * h
                ||| y == -1 && x == res.w() && h * x <= res.h() * w
            },
            None => false,
        },
{
    assert(h * res.w() == res.w() * h) by (nonlinear_arith);
    assert(w * res.h() == res.h() * w) by (nonlinear_arith);
}

/// Automatic scaling brings a video to the size its model is made for, 1920 by
/// 1080 or 3840 by 2160, where it is clearly smaller in both dimensions, and
/// leaves every other video as it is.
pub proof fn law_auto_scales_small_videos(w: u32, h: u32)
    requires
        0 < w,
        0 < h,
    ensures
        ({
            let hd = chosen_scale(VmafScale::Auto, VmafModel::Vmaf1K, Some((w, h)));
            &&& hd is Some <==> w < 1728 && h < 972
            &&& hd is Some ==> hd->0 == (-1int, 1080int) && 9 * w < 16 * h || hd->0 == (
                1920int,
                -1int,
            ) && 9 * w >= 16 * h
        }),
        ({
            let uhd = chosen_scale(VmafScale::Auto, VmafModel::Vmaf4K, Some((w, h)));
            &&& uhd is Some <==> w < 3456 && h < 1944
            &&& uhd is Some ==> uhd->0 == (-1int, 2160int) && 9 * w < 16 * h || uhd->0 == (
                3840int,
                -1int,
            ) && 9 * w >= 16 * h
        }),
        chosen_scale(VmafScale::Auto, VmafModel::Custom, Some((w, h))) is None,
{
}

/// A model that is given is the one that is used, at any resolution.
pub proof fn law_given_model_is_kept(args: Seq<Seq<char>>, distorted: Option<(u32, u32)>, i: int)
    requires
        0 <= i < args.len(),
        overrides_model(args[i]),
    ensures
        selected_model(args) is Some,
        used_model(args, distorted) == (selected_model(args), false),
        (forall|j: int| 0 <= j < args.len() && j != i ==> !overrides_model(#[trigger] args[j]))
            ==> selected_model(args) == Some(
            if text::has_suffix(args[i], "version=vmaf_v0.6.1"@) {
                VmafModel::Vmaf1K
            } else if text::has_suffix(args[i], "version=vmaf_4k_v0.6.1"@) {
                VmafModel::Vmaf4K
            } else {
                VmafModel::Custom
            },
        ),
        (exists|j: int| 0 <= j < args.len() && j != i && overrides_model(#[trigger] args[j]))
            ==> selected_model(args) == Some(VmafModel::Custom),
{
    lemma_model_args(args, i);
}

proof fn lemma_model_args(args: Seq<Seq<char>>, i: int)
    requires
        0 <= i < args.len(),
        overrides_model(args[i]),
    ensures
        model_args(args).len() >= 1,
        (forall|j: int| 0 <= j < args.len() && j != i ==> !overrides_model(#[trigger] args[j]))
            ==> model_args(args) == seq![args[i]],
        (exists|j: int| 0 <= j < args.len() && j != i && overrides_model(#[trigger] args[j]))
            ==> model_args(args).len() >= 2,
    decreases args.len(),
{
    let front = args.drop_last();
    let n = args.len() - 1;
    if i == n {
        if exists|j: int| 0 <= j < args.len() && j != i && overrides_model(#[trigger] args[j]) {
            let j = choose|j: int|
                0 <= j < args.len() && j != i && overrides_model(#[trigger] args[j]);
            assert(front[j] == args[j]);
            lemma_model_args(front, j);
        } else {
            lemma_no_model_args(front);
            assert(model_args(args) =~= seq![args[i]]);
        }
    } else {
        assert(front[i] == args[i]);
        lemma_model_args(front, i);
        if exists|j: int| 0 <= j < args.len() && j != i && overrides_model(#[trigger] args[j]) {
            let j = choose|j: int|
                0 <= j < args.len() && j != i && overrides_model(#[trigger] args[j]);
            if j < n {
                assert(front[j] == args[j]);
            } else {
                assert(overrides_model(args.last()));
            }
        } else {
            assert(!overrides_model(args[n]));
            assert forall|j: int| 0 <= j < front.len() && j != i implies !overrides_model(
                #[trigger] front[j],
            ) by {
                assert(front[j] == args[j]);
            }
        }
    }
}

proof fn lemma_no_model_args(args: Seq<Seq<char>>)
    requires
        forall|j: int| 0 <= j < args.len() ==> !overrides_model(#[trigger] args[j]),
    ensures
        model_args(args).len() == 0,
    decreases args.len(),
{
    if args.len() > 0 {
        assert(!overrides_model(args[args.len() - 1]));
        assert forall|j: int| 0 <= j < args.drop_last().len() implies !overrides_model(
            #[trigger] args.drop_last()[j],
        ) by {
            assert(args.drop_last()[j] == args[j]);
        }
        lemma_no_model_args(args.drop_last());
    }
}

/// An argument sets the model where it starts with `model=` or has it behind a
/// colon, and nowhere else.
pub proof fn law_model_set_at_an_option(front: Seq<char>, value: Seq<char>, arg: Seq<char>)
    ensures
        overrides_model("model="@ + value),
        overrides_model(front.push(':') + "model="@ + value),
        !text::contains(arg, "model="@) ==> !overrides_model(arg),
        arg.len() > 0 && arg[0] != 'm' && !arg.contains(':') ==> !overrides_model(arg),
{
    reveal_strlit("model=");
    let word = "model="@;
    let a = word + value;
    assert(a.subrange(0, 6) =~= word);
    assert(text::occurs_at(a, word, 0));
    let b = front.push(':') + word + value;
    let i = front.len() + 1int;
    assert(b.subrange(i, i + 6) =~= word);
    assert(text::occurs_at(b, word, i));
    assert(b[i - 1] == ':');
    text::lemma_find_from(arg, word, 0);
    if arg.len() > 0 && arg[0] != 'm' && !arg.contains(':') {
        if overrides_model(arg) {
            let k = choose|k: int|
                #![trigger text::occurs_at(arg, word, k)]
                0 <= k && text::occurs_at(arg, word, k) && (k == 0 || arg[k - 1] == ':');
            if k == 0 {
                assert(arg.subrange(0, 6)[0] == arg[0]);
                assert(word[0] == 'm');
            } else {
                assert(arg.contains(arg[k - 1]));
            }
        }
    }
}

/// A resolution that is spelled has two dimensions, neither of which is nought,
/// with one `x` between them that is the first.
pub proof fn law_spelled_dims_are_positive(s: Seq<char>)
    ensures
        spelled_dims(s) matches Some((w, h)) ==> w > 0 && h > 0,
        spelled_dims(s) is Some ==> s.contains('x'),
        !s.contains('x') ==> spelled_dims(s) is None,
{
    text::law_split_at_the_first(s, 'x');
}

} // verus!
