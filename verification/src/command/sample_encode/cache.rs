//! Keys and lookups of the sample-encode cache.
use crate::command::args::encode::PixelFormat;
use crate::command::args::vmaf;
use crate::command::args::vmaf::VmafScale;
use crate::command::sample_encode::result::EncodeResult;
use crate::command::sample_encode::ScoringConfig;
use crate::command::worker::frames;
use crate::duration::Duration;
use crate::ffmpeg::FfmpegEncodeArgs;
use crate::float::Single;
use crate::outside;
use crate::path;
use crate::text;
use vstd::prelude::*;
use vstd::utf8::*;

verus! {

broadcast use vstd::string::group_string_axioms;

// ---- texts within a text ----

/// A text whose end can be told: a colon stands before each character and a
/// full stop behind the last one.
pub open spec fn escaped(s: Seq<char>) -> Seq<char> {
    Seq::new(
        (2 * s.len() + 1) as nat,
        |i: int|
            if i == 2 * s.len() {
                '.'
            } else if i % 2 == 0 {
                ':'
            } else {
                s[i / 2]
            },
    )
}

/// Texts one behind the other: a colon stands before each and a full stop
/// behind the last one.
pub open spec fn listed(l: Seq<Seq<char>>) -> Seq<char>
    decreases l.len(),
{
    if l.len() == 0 {
        seq!['.']
    } else {
        seq![':'] + escaped(l[0]) + listed(l.drop_first())
    }
}

/// Where a text ends is known whatever stands behind it.
proof fn lemma_escaped_apart(a: Seq<char>, b: Seq<char>, x: Seq<char>, y: Seq<char>)
    requires
        escaped(a) + x == escaped(b) + y,
    ensures
        a == b,
        x == y,
{
    let l = escaped(a) + x;
    let r = escaped(b) + y;
    if a.len() < b.len() {
        assert(l[2 * a.len() as int] == '.');
        assert(r[2 * a.len() as int] == ':');
    }
    if b.len() < a.len() {
        assert(l[2 * b.len() as int] == ':');
        assert(r[2 * b.len() as int] == '.');
    }
    assert forall|i: int| 0 <= i < a.len() implies a[i] == b[i] by {
        assert(l[2 * i + 1] == a[i]);
        assert(r[2 * i + 1] == b[i]);
    }
    assert(a =~= b);
    let n = escaped(a).len() as int;
    assert(l.skip(n) =~= x);
    assert(r.skip(n) =~= y);
}

/// Lists of texts that are written alike are the same.
pub proof fn law_listed_injective(a: Seq<Seq<char>>, b: Seq<Seq<char>>)
    requires
        listed(a) == listed(b),
    ensures
        a == b,
    decreases a.len(),
{
    assert(listed(a)[0] == listed(b)[0]);
    if a.len() == 0 {
        assert(listed(a) == seq!['.']);
        if b.len() > 0 {
            assert(listed(b)[0] == ':');
        }
        assert(a =~= b);
    } else {
        assert(listed(a) == seq![':'] + escaped(a[0]) + listed(a.drop_first()));
        assert(listed(a)[0] == ':');
        if b.len() == 0 {
            assert(listed(b) == seq!['.']);
            assert(listed(b)[0] == '.');
        }
        let ra = listed(a.drop_first());
        let rb = listed(b.drop_first());
        assert(listed(a).skip(1) =~= escaped(a[0]) + ra);
        assert(listed(b).skip(1) =~= escaped(b[0]) + rb);
        lemma_escaped_apart(a[0], b[0], ra, rb);
        law_listed_injective(a.drop_first(), b.drop_first());
        assert(a =~= seq![a[0]] + a.drop_first());
        assert(b =~= seq![b[0]] + b.drop_first());
    }
}

fn escaped_text(s: &str) -> (r: String)
    ensures
        r@ == escaped(s@),
{
    let v = text::chars_of(s);
    let mut out = String::new();
    let mut i: usize = 0;
    while i < v.len()
        invariant
            i <= v.len(),
            v@ == s@,
            out@.len() == 2 * i,
            forall|j: int| 0 <= j < 2 * i ==> #[trigger] out@[j] == escaped(s@)[j],
        decreases v.len() - i,
    {
        out.push(':');
        out.push(v[i]);
        proof {
            assert((2 * i) % 2 == 0);
            assert((2 * i + 1) / 2 == i);
        }
        i += 1;
    }
    out.push('.');
    assert(out@ =~= escaped(s@));
    out
}

fn listed_text(l: &[String]) -> (r: String)
    ensures
        r@ == listed(text::views(l@)),
{
    let ghost all = text::views(l@);
    let mut out = ".".to_owned();
    let mut i: usize = l.len();
    proof {
        reveal_strlit(".");
        assert(out@ =~= seq!['.']);
        assert(all.skip(i as int).len() == 0);
    }
    while i > 0
        invariant
            i <= l.len(),
            all == text::views(l@),
            out@ == listed(all.skip(i as int)),
        decreases i,
    {
        i -= 1;
        let item = escaped_text(l[i].as_str());
        let rest = out;
        out = text::cat3(":", item.as_str(), rest.as_str());
        proof {
            reveal_strlit(":");
            assert(":"@ =~= seq![':']);
            assert(all.skip(i as int).drop_first() =~= all.skip(i + 1));
            assert(all.skip(i as int)[0] == all[i as int]);
        }
    }
    assert(all.skip(0) =~= all);
    out
}

// ---- values as texts ----

/// The text of a value that may be missing.
pub open spec fn opt_text(v: Option<Seq<char>>) -> Seq<char> {
    match v {
        Some(s) => seq!['+'] + s,
        None => Seq::empty(),
    }
}

proof fn lemma_opt_text(a: Option<Seq<char>>, b: Option<Seq<char>>)
    ensures
        opt_text(a) == opt_text(b) ==> a == b,
{
    if opt_text(a) == opt_text(b) {
        assert(opt_text(a).len() == opt_text(b).len());
        if a is Some && b is Some {
            assert(opt_text(a).skip(1) =~= a->0);
            assert(opt_text(b).skip(1) =~= b->0);
        }
    }
}

fn some_text(s: &str) -> (r: String)
    ensures
        r@ == opt_text(Some(s@)),
{
    proof {
        reveal_strlit("+");
        assert("+"@ =~= seq!['+']);
    }
    text::cat2("+", s)
}

/// The view of an optional string.
pub open spec fn opt_view(s: Option<String>) -> Option<Seq<char>> {
    match s {
        Some(t) => Some(t@),
        None => None,
    }
}

fn opt_string_text(s: &Option<String>) -> (r: String)
    ensures
        r@ == opt_text(opt_view(*s)),
{
    match s {
        Some(t) => some_text(t.as_str()),
        None => String::new(),
    }
}

/// The digit of a truth value.
pub open spec fn flag_text(b: bool) -> Seq<char> {
    if b {
        seq!['1']
    } else {
        seq!['0']
    }
}

fn flag_string(b: bool) -> (r: String)
    ensures
        r@ == flag_text(b),
{
    proof {
        reveal_strlit("1");
        reveal_strlit("0");
        assert("1"@ =~= seq!['1']);
        assert("0"@ =~= seq!['0']);
    }
    if b {
        "1".to_owned()
    } else {
        "0".to_owned()
    }
}

/// The digits of an optional number's bits.
pub open spec fn rate_text(v: Option<Single>) -> Seq<char> {
    opt_text(
        match v {
            Some(s) => Some(text::dec(s.bits as nat)),
            None => None,
        },
    )
}

fn rate_string(v: Option<Single>) -> (r: String)
    ensures
        r@ == rate_text(v),
{
    match v {
        Some(s) => {
            let d = text::dec_string(s.bits as u64);
            some_text(d.as_str())
        },
        None => String::new(),
    }
}

proof fn lemma_rate_text(a: Option<Single>, b: Option<Single>)
    ensures
        rate_text(a) == rate_text(b) ==> a == b,
{
    lemma_opt_text(
        match a {
            Some(s) => Some(text::dec(s.bits as nat)),
            None => None,
        },
        match b {
            Some(s) => Some(text::dec(s.bits as nat)),
            None => None,
        },
    );
    if a is Some && b is Some {
        lemma_dec_injective(a->0.bits as nat, b->0.bits as nat);
    }
}

proof fn lemma_dec_injective(a: nat, b: nat)
    ensures
        text::dec(a) == text::dec(b) ==> a == b,
{
    text::lemma_dec_spells(a);
    text::lemma_dec_spells(b);
}

/// The name of an optional pixel format.
pub open spec fn pixel_text(f: Option<PixelFormat>) -> Seq<char> {
    opt_text(
        match f {
            Some(p) => Some(p.name()),
            None => None,
        },
    )
}

fn pixel_string(f: Option<PixelFormat>) -> (r: String)
    ensures
        r@ == pixel_text(f),
{
    match f {
        Some(p) => some_text(p.as_str()),
        None => String::new(),
    }
}

proof fn lemma_pixel_text(a: Option<PixelFormat>, b: Option<PixelFormat>)
    ensures
        pixel_text(a) == pixel_text(b) ==> a == b,
{
    lemma_opt_text(
        match a {
            Some(p) => Some(p.name()),
            None => None,
        },
        match b {
            Some(p) => Some(p.name()),
            None => None,
        },
    );
    crate::command::args::encode::lemma_pixel_names_distinct();
}

/// The width and the height of a scale.
pub open spec fn scale_dims(s: VmafScale) -> (nat, nat) {
    match s {
        VmafScale::Custom(res) => (res.w() as nat, res.h() as nat),
        _ => (0, 0),
    }
}

/// The word of a scale.
pub open spec fn scale_word(s: VmafScale) -> nat {
    match s {
        VmafScale::Off => 0,
        VmafScale::Auto => 1,
        VmafScale::Custom(_) => 2,
    }
}

// ---- keys ----

/// What a cached result depends on beside the arguments of the encoder and of
/// the scores. The paths tell files apart that share the name of a sample, the
/// duration, the extension and the size.
#[derive(Debug, PartialEq, Eq)]
pub struct CacheInput {
    pub sample: String,
    pub source_input: String,
    pub input_duration: Duration,
    pub input_extension: Option<String>,
    pub input_size: u64,
    pub full_pass: bool,
    pub dest_ext: String,
    /// What the svt-av1 encoder says of its version. A new release makes old
    /// results of that encoder unused.
    pub svt_version: String,
}

/// The version of the encoder, where it matters.
pub open spec fn version_text(input: CacheInput, args: FfmpegEncodeArgs) -> Seq<char> {
    opt_text(
        if args.vcodec@ == "libsvtav1"@ {
            Some(input.svt_version@)
        } else {
            None
        },
    )
}

/// The texts of all that a result depends on.
pub open spec fn key_fields(
    input: CacheInput,
    args: FfmpegEncodeArgs,
    scoring: ScoringConfig,
) -> Seq<Seq<char>> {
    seq![
        input.sample@,
        input.source_input@,
        text::dec(input.input_duration@),
        opt_text(opt_view(input.input_extension)),
        text::dec(input.input_size as nat),
        flag_text(input.full_pass),
        input.dest_ext@,
        version_text(input, args),
        args.vcodec@,
        opt_text(opt_view(args.vfilter)),
        pixel_text(args.pix_fmt),
        text::dec(args.crf.value.bits as nat),
        opt_text(opt_view(args.preset)),
        listed(text::views(args.output_args@)),
        listed(text::views(args.input_args@)),
        opt_text(opt_view(scoring.score.reference_vfilter)),
        opt_text(
            match scoring.vmaf.and_vmaf {
                Some(b) => Some(flag_text(b)),
                None => None,
            },
        ),
        listed(vmaf::arg_views(scoring.vmaf.vmaf_args@)),
        text::dec(scale_word(scoring.vmaf.vmaf_scale)),
        text::dec(scale_dims(scoring.vmaf.vmaf_scale).0),
        text::dec(scale_dims(scoring.vmaf.vmaf_scale).1),
        rate_text(scoring.vmaf.vmaf_fps.rate()),
        flag_text(scoring.xpsnr),
        rate_text(scoring.xpsnr_opts.xpsnr_fps.rate()),
        pixel_text(scoring.xpsnr_opts.xpsnr_pix_format),
    ]
}

/// The text that stands for all that a result depends on.
pub open spec fn key_text(
    input: CacheInput,
    args: FfmpegEncodeArgs,
    scoring: ScoringConfig,
) -> Seq<char> {
    listed(key_fields(input, args, scoring))
}

/// The key of a cached result: a digest.
#[derive(Debug, PartialEq, Eq)]
pub struct Key {
    digest: Vec<u8>,
}

/// Bytes in hexadecimal.
pub open spec fn hex(b: Seq<u8>) -> Seq<char> {
    Seq::new(
        2 * b.len(),
        |i: int| frames::hex_byte(b[i / 2])[i % 2],
    )
}

impl View for Key {
    type V = Seq<u8>;

    closed spec fn view(&self) -> Seq<u8> {
        self.digest@
    }
}

impl Key {
    /// The key in hexadecimal, by which the cache is searched.
    pub fn to_hex(&self) -> (r: String)
        ensures
            r@ == hex(self@),
    {
        let mut out = String::new();
        let mut i: usize = 0;
        while i < self.digest.len()
            invariant
                i <= self.digest.len(),
                out@.len() == 2 * i,
                forall|j: int| 0 <= j < 2 * i ==> #[trigger] out@[j] == hex(self.digest@)[j],
            decreases self.digest.len() - i,
        {
            let b: u8 = self.digest[i];
            out.push(frames::hex_char(b / 16));
            out.push(frames::hex_char(b % 16));
            proof {
                assert((2 * i) / 2 == i && (2 * i) % 2 == 0);
                assert((2 * i + 1) / 2 == i && (2 * i + 1) % 2 == 1);
            }
            i += 1;
        }
        assert(out@ =~= hex(self@));
        out
    }
}

fn push_text(out: &mut Vec<String>, s: String)
    ensures
        text::views(final(out)@) == text::views(old(out)@).push(s@),
{
    let ghost before = text::views(out@);
    let ghost view = s@;
    out.push(s);
    assert(text::views(out@) =~= before.push(view));
}

/// Build a cache key from sample path, source input identity, and encode/scoring args.
pub fn encode_cache_key(
    input: &CacheInput,
    enc_args: &FfmpegEncodeArgs,
    scoring: &ScoringConfig,
) -> (r: Key)
    ensures
        r@ == outside::blake3_digest(encode_utf8(key_text(*input, *enc_args, *scoring))),
        r@.len() == 32,
{
    let mut f: Vec<String> = Vec::new();
    assert(text::views(f@) =~= Seq::empty());
    push_text(&mut f, input.sample.clone());
    push_text(&mut f, input.source_input.clone());
    let mut nanos = String::new();
    text::push_dec(&mut nanos, input.input_duration.as_nanos());
    assert(nanos@ =~= text::dec(input.input_duration@));
    push_text(&mut f, nanos);
    push_text(&mut f, opt_string_text(&input.input_extension));
    push_text(&mut f, text::dec_string(input.input_size));
    push_text(&mut f, flag_string(input.full_pass));
    push_text(&mut f, input.dest_ext.clone());
    let version = if text::same(enc_args.vcodec.as_str(), "libsvtav1") {
        some_text(input.svt_version.as_str())
    } else {
        String::new()
    };
    push_text(&mut f, version);
    push_text(&mut f, enc_args.vcodec.clone());
    push_text(&mut f, opt_string_text(&enc_args.vfilter));
    push_text(&mut f, pixel_string(enc_args.pix_fmt));
    push_text(&mut f, text::dec_string(enc_args.crf.value.bits as u64));
    push_text(&mut f, opt_string_text(&enc_args.preset));
    push_text(&mut f, listed_text(enc_args.output_args.as_slice()));
    push_text(&mut f, listed_text(enc_args.input_args.as_slice()));
    push_scoring(&mut f, scoring);
    assert(text::views(f@) =~= key_fields(*input, *enc_args, *scoring));
    let all = listed_text(f.as_slice());
    let digest = outside::blake3_hash(all.as_str().as_bytes());
    Key { digest }
}

/// The texts of what the scores depend on.
pub open spec fn scoring_fields(scoring: ScoringConfig) -> Seq<Seq<char>> {
    seq![
        opt_text(opt_view(scoring.score.reference_vfilter)),
        opt_text(
            match scoring.vmaf.and_vmaf {
                Some(b) => Some(flag_text(b)),
                None => None,
            },
        ),
        listed(vmaf::arg_views(scoring.vmaf.vmaf_args@)),
        text::dec(scale_word(scoring.vmaf.vmaf_scale)),
        text::dec(scale_dims(scoring.vmaf.vmaf_scale).0),
        text::dec(scale_dims(scoring.vmaf.vmaf_scale).1),
        rate_text(scoring.vmaf.vmaf_fps.rate()),
        flag_text(scoring.xpsnr),
        rate_text(scoring.xpsnr_opts.xpsnr_fps.rate()),
        pixel_text(scoring.xpsnr_opts.xpsnr_pix_format),
    ]
}

fn push_scoring(f: &mut Vec<String>, scoring: &ScoringConfig)
    ensures
        text::views(final(f)@) == text::views(old(f)@) + scoring_fields(*scoring),
{
    let ghost before = text::views(f@);
    push_text(f, opt_string_text(&scoring.score.reference_vfilter));
    let and_vmaf = match scoring.vmaf.and_vmaf {
        Some(b) => {
            let flag = flag_string(b);
            some_text(flag.as_str())
        },
        None => String::new(),
    };
    push_text(f, and_vmaf);
    let mut args: Vec<String> = Vec::new();
    let ghost views = vmaf::arg_views(scoring.vmaf.vmaf_args@);
    let mut i: usize = 0;
    while i < scoring.vmaf.vmaf_args.len()
        invariant
            i <= scoring.vmaf.vmaf_args.len(),
            views == vmaf::arg_views(scoring.vmaf.vmaf_args@),
            text::views(args@) =~= views.take(i as int),
        decreases scoring.vmaf.vmaf_args.len() - i,
    {
        push_text(&mut args, scoring.vmaf.vmaf_args[i].as_str().to_owned());
        i += 1;
    }
    assert(views.take(i as int) =~= views);
    push_text(f, listed_text(args.as_slice()));
    let (word, width, height): (u64, u64, u64) = match scoring.vmaf.vmaf_scale {
        VmafScale::Off => (0, 0, 0),
        VmafScale::Auto => (1, 0, 0),
        VmafScale::Custom(res) => (2, res.width() as u64, res.height() as u64),
    };
    push_text(f, text::dec_string(word));
    push_text(f, text::dec_string(width));
    push_text(f, text::dec_string(height));
    push_text(f, rate_string(scoring.vmaf.vmaf_fps.fps()));
    push_text(f, flag_string(scoring.xpsnr));
    push_text(f, rate_string(scoring.xpsnr_opts.xpsnr_fps.fps()));
    push_text(f, pixel_string(scoring.xpsnr_opts.xpsnr_pix_format));
    assert(text::views(f@) =~= before + scoring_fields(*scoring));
}

/// Work that differs in anything that its result depends on is digested from
/// different bytes.
pub proof fn law_key_bytes_tell_work_apart(
    a: CacheInput,
    a_args: FfmpegEncodeArgs,
    a_scoring: ScoringConfig,
    b: CacheInput,
    b_args: FfmpegEncodeArgs,
    b_scoring: ScoringConfig,
)
    requires
        encode_utf8(key_text(a, a_args, a_scoring)) == encode_utf8(
            key_text(b, b_args, b_scoring),
        ),
    ensures
        a.sample@ == b.sample@,
        a.source_input@ == b.source_input@,
        a.input_duration@ == b.input_duration@,
        opt_view(a.input_extension) == opt_view(b.input_extension),
        a.input_size == b.input_size,
        a.full_pass == b.full_pass,
        a.dest_ext@ == b.dest_ext@,
        a_args.vcodec@ == "libsvtav1"@ ==> a.svt_version@ == b.svt_version@,
        a_args.vcodec@ == b_args.vcodec@,
        opt_view(a_args.vfilter) == opt_view(b_args.vfilter),
        a_args.pix_fmt == b_args.pix_fmt,
        a_args.crf.value == b_args.crf.value,
        opt_view(a_args.preset) == opt_view(b_args.preset),
        text::views(a_args.output_args@) == text::views(b_args.output_args@),
        text::views(a_args.input_args@) == text::views(b_args.input_args@),
        opt_view(a_scoring.score.reference_vfilter) == opt_view(b_scoring.score.reference_vfilter),
        a_scoring.vmaf.and_vmaf == b_scoring.vmaf.and_vmaf,
        vmaf::arg_views(a_scoring.vmaf.vmaf_args@) == vmaf::arg_views(b_scoring.vmaf.vmaf_args@),
        scale_word(a_scoring.vmaf.vmaf_scale) == scale_word(b_scoring.vmaf.vmaf_scale),
        scale_dims(a_scoring.vmaf.vmaf_scale) == scale_dims(b_scoring.vmaf.vmaf_scale),
        a_scoring.vmaf.vmaf_fps.rate() == b_scoring.vmaf.vmaf_fps.rate(),
        a_scoring.xpsnr == b_scoring.xpsnr,
        a_scoring.xpsnr_opts.xpsnr_fps.rate() == b_scoring.xpsnr_opts.xpsnr_fps.rate(),
        a_scoring.xpsnr_opts.xpsnr_pix_format == b_scoring.xpsnr_opts.xpsnr_pix_format,
{
    text::lemma_same_bytes_same_chars(
        key_text(a, a_args, a_scoring),
        key_text(b, b_args, b_scoring),
    );
    let fa = key_fields(a, a_args, a_scoring);
    let fb = key_fields(b, b_args, b_scoring);
    law_listed_injective(fa, fb);
    assert(forall|i: int| 0 <= i < 25 ==> #[trigger] fa[i] == fb[i]);
    assert(fa[0] == fb[0] && fa[1] == fb[1] && fa[6] == fb[6] && fa[8] == fb[8]);
    assert(fa[2] == fb[2]);
    lemma_dec_injective(a.input_duration@, b.input_duration@);
    assert(fa[3] == fb[3]);
    lemma_opt_text(opt_view(a.input_extension), opt_view(b.input_extension));
    assert(fa[4] == fb[4]);
    lemma_dec_injective(a.input_size as nat, b.input_size as nat);
    assert(fa[5][0] == fb[5][0]);
    assert(fa[7] == fb[7]);
    lemma_opt_text(
        if a_args.vcodec@ == "libsvtav1"@ {
            Some(a.svt_version@)
        } else {
            None
        },
        if b_args.vcodec@ == "libsvtav1"@ {
            Some(b.svt_version@)
        } else {
            None
        },
    );
    assert(fa[9] == fb[9]);
    lemma_opt_text(opt_view(a_args.vfilter), opt_view(b_args.vfilter));
    assert(fa[10] == fb[10]);
    lemma_pixel_text(a_args.pix_fmt, b_args.pix_fmt);
    assert(fa[11] == fb[11]);
    lemma_dec_injective(a_args.crf.value.bits as nat, b_args.crf.value.bits as nat);
    assert(fa[12] == fb[12]);
    lemma_opt_text(opt_view(a_args.preset), opt_view(b_args.preset));
    assert(fa[13] == fb[13]);
    law_listed_injective(text::views(a_args.output_args@), text::views(b_args.output_args@));
    assert(fa[14] == fb[14]);
    law_listed_injective(text::views(a_args.input_args@), text::views(b_args.input_args@));
    assert(fa[15] == fb[15]);
    lemma_opt_text(
        opt_view(a_scoring.score.reference_vfilter),
        opt_view(b_scoring.score.reference_vfilter),
    );
    assert(fa[16] == fb[16]);
    let va = match a_scoring.vmaf.and_vmaf {
        Some(f) => Some(flag_text(f)),
        None => None,
    };
    let vb = match b_scoring.vmaf.and_vmaf {
        Some(f) => Some(flag_text(f)),
        None => None,
    };
    lemma_opt_text(va, vb);
    if va is Some {
        assert(va->0[0] == vb->0[0]);
    }
    assert(fa[17] == fb[17]);
    law_listed_injective(
        vmaf::arg_views(a_scoring.vmaf.vmaf_args@),
        vmaf::arg_views(b_scoring.vmaf.vmaf_args@),
    );
    assert(fa[18] == fb[18] && fa[19] == fb[19] && fa[20] == fb[20]);
    lemma_dec_injective(
        scale_word(a_scoring.vmaf.vmaf_scale),
        scale_word(b_scoring.vmaf.vmaf_scale),
    );
    lemma_dec_injective(
        scale_dims(a_scoring.vmaf.vmaf_scale).0,
        scale_dims(b_scoring.vmaf.vmaf_scale).0,
    );
    lemma_dec_injective(
        scale_dims(a_scoring.vmaf.vmaf_scale).1,
        scale_dims(b_scoring.vmaf.vmaf_scale).1,
    );
    assert(fa[21] == fb[21]);
    lemma_rate_text(a_scoring.vmaf.vmaf_fps.rate(), b_scoring.vmaf.vmaf_fps.rate());
    assert(fa[22][0] == fb[22][0]);
    assert(fa[23] == fb[23]);
    lemma_rate_text(
        a_scoring.xpsnr_opts.xpsnr_fps.rate(),
        b_scoring.xpsnr_opts.xpsnr_fps.rate(),
    );
    assert(fa[24] == fb[24]);
    lemma_pixel_text(
        a_scoring.xpsnr_opts.xpsnr_pix_format,
        b_scoring.xpsnr_opts.xpsnr_pix_format,
    );
}

// ---- lookups ----

/// Where the cache is: below the user's directory of caches, which there has to
/// be.
pub fn sample_encode_cache_path(cache_dir: Option<&str>) -> (r: Result<String, &'static str>)
    ensures
        match (cache_dir, r) {
            (Some(dir), Ok(p)) => p@ == path::joined(
                path::joined(dir@, "ab-av1"@),
                "sample-encode-cache"@,
            ),
            (None, Err(e)) => e@
                == "sample-encode cache requires a cache directory; set XDG_CACHE_HOME (or platform equivalent) or pass --no-cache"@,
            _ => false,
        },
{
    match cache_dir {
        Some(dir) => {
            let app = path::path_join(dir, "ab-av1");
            Ok(path::path_join(app.as_str(), "sample-encode-cache"))
        },
        None => Err(
            "sample-encode cache requires a cache directory; set XDG_CACHE_HOME (or platform equivalent) or pass --no-cache",
        ),
    }
}

/// What a lookup in the cache gives: the result if there is one, the key under
/// which a new result is to be stored, and an error to report.
#[derive(Debug, PartialEq, Eq)]
pub struct Lookup {
    pub result: Option<EncodeResult>,
    pub key: Option<Key>,
    pub report: Option<String>,
}

/// What a lookup gives by what was `stored` under the key. A result that is
/// there is marked as cached. After an error nothing is stored either.
pub fn cached_encode(key: Key, stored: Result<Option<EncodeResult>, String>) -> (r: Lookup)
    ensures
        match stored {
            Ok(Some(found)) => r.result == Some(EncodeResult { from_cache: true, ..found })
                && r.key == Some(key) && r.report is None,
            Ok(None) => r.result is None && r.key == Some(key) && r.report is None,
            Err(e) => r.result is None && r.key is None && (r.report matches Some(m) && m@
                == "cache error: "@ + e@),
        },
{
    match stored {
        Ok(Some(found)) => Lookup {
            result: Some(EncodeResult { from_cache: true, ..found }),
            key: Some(key),
            report: None,
        },
        Ok(None) => Lookup { result: None, key: Some(key), report: None },
        Err(e) => Lookup {
            result: None,
            key: None,
            report: Some(text::cat2("cache error: ", e.as_str())),
        },
    }
}

/// Bytes have two digits each in hexadecimal, and different bytes are written
/// differently.
pub proof fn law_hex_tells_bytes_apart(a: Seq<u8>, b: Seq<u8>)
    ensures
        hex(a).len() == 2 * a.len(),
        hex(a) == hex(b) ==> a == b,
{
    if hex(a) == hex(b) {
        assert(hex(a).len() == 2 * a.len() && hex(b).len() == 2 * b.len());
        assert forall|i: int| 0 <= i < a.len() implies a[i] == b[i] by {
            assert((2 * i) / 2 == i && (2 * i) % 2 == 0);
            assert((2 * i + 1) / 2 == i && (2 * i + 1) % 2 == 1);
            assert(hex(a)[2 * i] == hex(b)[2 * i]);
            assert(hex(a)[2 * i + 1] == hex(b)[2 * i + 1]);
            assert(frames::hex_digit(a[i] as int / 16) == frames::hex_digit(b[i] as int / 16));
            assert(frames::hex_digit(a[i] as int % 16) == frames::hex_digit(b[i] as int % 16));
        }
        assert(a =~= b);
    }
}

} // verus!
