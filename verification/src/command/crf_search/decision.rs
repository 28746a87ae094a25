//! How a crf search goes on after an attempt.
use crate::command::crf_search;
use crate::command::crf_search::err::Error;
use crate::command::crf_search::{MaxEncodedPercent, Sample};
use crate::float::Single;
use vstd::prelude::*;

verus! {

/// The least and the greatest q for which sums of two fit in 64 bits.
pub const MAX_Q: i64 = 0x3fff_ffff_ffff_ffff;

/// Whether sums of this number and another such number fit in 64 bits.
pub open spec fn small(q: int) -> bool {
    -MAX_Q <= q <= MAX_Q
}

/// How a search goes on.
#[derive(Debug, Clone, Copy, PartialEq, Eq, Structural)]
pub enum SearchTransition {
    /// The next q to try is known.
    Continue { next_q: i64 },
    /// The next q lies between two attempts.
    Interpolate { worse: Sample, better: Sample },
    /// The next q lies 60 percent of the way to a bound.
    Cut { from_q: i64, to_q: i64 },
    /// The attempt is the result.
    Done(Sample),
    /// An earlier attempt is the result.
    RunResultThenDone { run_result: Sample, done: Sample },
}

/// What a decision depends on beside the attempts.
#[derive(Debug, Clone, Copy, PartialEq, Eq, Structural)]
pub struct SearchDecision {
    pub min_score: Single,
    /// The minimum score plus the tolerance: a score below it is close enough.
    pub tolerance_top: Single,
    /// The highest score that a search takes at once that is not thorough.
    pub band_top: Single,
    pub thorough: bool,
    pub cut_on_iter2: bool,
    pub run: usize,
    pub min_q: i64,
    pub max_q: i64,
    pub use_xpsnr: bool,
    pub max_encoded_percent: MaxEncodedPercent,
}

// ---- bounds ----

/// The first of the attempts with the least q above `q`.
pub open spec fn upper_bound(attempts: Seq<Sample>, q: int) -> Option<Sample>
    decreases attempts.len(),
{
    if attempts.len() == 0 {
        None
    } else {
        let front = upper_bound(attempts.drop_last(), q);
        let s = attempts.last();
        if s.q > q && (front is None || s.q < front->0.q) {
            Some(s)
        } else {
            front
        }
    }
}

/// The last of the attempts with the greatest q below `q`.
pub open spec fn lower_bound(attempts: Seq<Sample>, q: int) -> Option<Sample>
    decreases attempts.len(),
{
    if attempts.len() == 0 {
        None
    } else {
        let front = lower_bound(attempts.drop_last(), q);
        let s = attempts.last();
        if s.q < q && (front is None || s.q >= front->0.q) {
            Some(s)
        } else {
            front
        }
    }
}

/// The bounds are attempts, and no attempt lies between them and `q`.
pub proof fn law_bounds_are_nearest(attempts: Seq<Sample>, q: int)
    ensures
        match upper_bound(attempts, q) {
            Some(u) => u.q > q && attempts.contains(u) && (forall|i: int|
                0 <= i < attempts.len() && (#[trigger] attempts[i]).q > q ==> attempts[i].q >= u.q),
            None => forall|i: int| 0 <= i < attempts.len() ==> (#[trigger] attempts[i]).q <= q,
        },
        match lower_bound(attempts, q) {
            Some(l) => l.q < q && attempts.contains(l) && (forall|i: int|
                0 <= i < attempts.len() && (#[trigger] attempts[i]).q < q ==> attempts[i].q <= l.q),
            None => forall|i: int| 0 <= i < attempts.len() ==> (#[trigger] attempts[i]).q >= q,
        },
    decreases attempts.len(),
{
    if attempts.len() > 0 {
        let front = attempts.drop_last();
        law_bounds_are_nearest(front, q);
        let n = attempts.len() - 1;
        assert(attempts[n] == attempts.last());
        assert(attempts.contains(attempts.last()));
        assert forall|s: Sample| front.contains(s) implies attempts.contains(s) by {
            let i = choose|i: int| 0 <= i < front.len() && front[i] == s;
            assert(attempts[i] == s);
        }
        assert forall|i: int| 0 <= i < attempts.len() implies i == n || #[trigger] attempts[i]
            == front[i] by {}
    }
}

fn find_upper(attempts: &[Sample], q: i64) -> (r: Option<Sample>)
    ensures
        r == upper_bound(attempts@, q as int),
{
    let mut best: Option<Sample> = None;
    let mut i: usize = 0;
    while i < attempts.len()
        invariant
            i <= attempts.len(),
            best == upper_bound(attempts@.take(i as int), q as int),
        decreases attempts.len() - i,
    {
        proof {
            assert(attempts@.take(i + 1).drop_last() =~= attempts@.take(i as int));
        }
        let s = attempts[i];
        let nearer = match best {
            Some(b) => s.q < b.q,
            None => true,
        };
        if s.q > q && nearer {
            best = Some(s);
        }
        i += 1;
    }
    assert(attempts@.take(i as int) =~= attempts@);
    best
}

fn find_lower(attempts: &[Sample], q: i64) -> (r: Option<Sample>)
    ensures
        r == lower_bound(attempts@, q as int),
{
    let mut best: Option<Sample> = None;
    let mut i: usize = 0;
    while i < attempts.len()
        invariant
            i <= attempts.len(),
            best == lower_bound(attempts@.take(i as int), q as int),
        decreases attempts.len() - i,
    {
        proof {
            assert(attempts@.take(i + 1).drop_last() =~= attempts@.take(i as int));
        }
        let s = attempts[i];
        let nearer = match best {
            Some(b) => s.q >= b.q,
            None => true,
        };
        if s.q < q && nearer {
            best = Some(s);
        }
        i += 1;
    }
    assert(attempts@.take(i as int) =~= attempts@);
    best
}

// ---- decisions ----

/// Whether an attempt is no larger than allowed.
pub open spec fn small_enough(s: Sample, max: MaxEncodedPercent) -> bool {
    max.percent().ge(s.enc.encode_percent)
}

/// Whether an attempt has the score and the size that are asked for.
pub open spec fn acceptable(s: Sample, d: SearchDecision) -> bool {
    crf_search::search_score(s.enc, d.use_xpsnr).ge(d.min_score) && small_enough(
        s,
        d.max_encoded_percent,
    )
}

/// How a search goes on after an attempt that has the score.
pub open spec fn after_good(
    sample: Sample,
    score: Single,
    attempts: Seq<Sample>,
    d: SearchDecision,
) -> Result<SearchTransition, Error> {
    let fits = small_enough(sample, d.max_encoded_percent);
    let close = score.lt(d.tolerance_top) && (d.thorough || d.band_top.ge(score));
    let result = if fits {
        Ok(SearchTransition::Done(sample))
    } else {
        Err(Error::NoGoodCrf { last: sample })
    };
    if fits && close {
        Ok(SearchTransition::Done(sample))
    } else {
        match upper_bound(attempts, sample.q as int) {
            Some(upper) => if upper.q == sample.q + 1 {
                result
            } else {
                Ok(SearchTransition::Interpolate { worse: upper, better: sample })
            },
            None => if sample.q == d.max_q {
                result
            } else if d.cut_on_iter2 && d.run == 1 && sample.q + 1 < d.max_q {
                Ok(SearchTransition::Cut { from_q: sample.q, to_q: d.max_q })
            } else {
                Ok(SearchTransition::Continue { next_q: d.max_q })
            },
        }
    }
}

/// How a search goes on after an attempt that lacks the score.
pub open spec fn after_bad(sample: Sample, attempts: Seq<Sample>, d: SearchDecision) -> Result<
    SearchTransition,
    Error,
> {
    if !small_enough(sample, d.max_encoded_percent) || sample.q == d.min_q {
        Err(Error::NoGoodCrf { last: sample })
    } else {
        match lower_bound(attempts, sample.q as int) {
            Some(lower) => if lower.q + 1 == sample.q && crf_search::search_score(
                lower.enc,
                d.use_xpsnr,
            ).ge(d.min_score) {
                if small_enough(lower, d.max_encoded_percent) {
                    Ok(SearchTransition::RunResultThenDone { run_result: sample, done: lower })
                } else {
                    Err(Error::NoGoodCrf { last: sample })
                }
            } else {
                Ok(SearchTransition::Interpolate { worse: sample, better: lower })
            },
            None => if d.cut_on_iter2 && d.run == 1 && sample.q > d.min_q + 1 {
                Ok(SearchTransition::Cut { from_q: sample.q, to_q: d.min_q })
            } else {
                Ok(SearchTransition::Continue { next_q: d.min_q })
            },
        }
    }
}

/// How a search goes on after an attempt.
pub open spec fn transition(
    sample: Sample,
    score: Single,
    attempts: Seq<Sample>,
    d: SearchDecision,
) -> Result<SearchTransition, Error> {
    if score.ge(d.min_score) {
        after_good(sample, score, attempts, d)
    } else {
        after_bad(sample, attempts, d)
    }
}

fn good_transition(sample: &Sample, score: Single, attempts: &[Sample], d: SearchDecision) -> (r:
    Result<SearchTransition, Error>)
    requires
        sample.q < i64::MAX,
    ensures
        r == after_good(*sample, score, attempts@, d),
{
    let fits = d.max_encoded_percent.get().at_least(sample.enc.encode_percent);
    let in_band = d.thorough || d.band_top.at_least(score);
    if fits && score.less_than(d.tolerance_top) && in_band {
        return Ok(SearchTransition::Done(*sample));
    }
    match find_upper(attempts, sample.q) {
        Some(upper) => {
            if upper.q == sample.q + 1 {
                match Error::ensure_or_no_good_crf(fits, sample) {
                    Ok(_) => Ok(SearchTransition::Done(*sample)),
                    Err(e) => Err(e),
                }
            } else {
                Ok(SearchTransition::Interpolate { worse: upper, better: *sample })
            }
        },
        None => {
            if sample.q == d.max_q {
                match Error::ensure_or_no_good_crf(fits, sample) {
                    Ok(_) => Ok(SearchTransition::Done(*sample)),
                    Err(e) => Err(e),
                }
            } else if d.cut_on_iter2 && d.run == 1 && sample.q + 1 < d.max_q {
                Ok(SearchTransition::Cut { from_q: sample.q, to_q: d.max_q })
            } else {
                Ok(SearchTransition::Continue { next_q: d.max_q })
            }
        },
    }
}

fn bad_transition(sample: &Sample, attempts: &[Sample], d: SearchDecision) -> (r: Result<
    SearchTransition,
    Error,
>)
    requires
        sample.q < i64::MAX,
        d.min_q < i64::MAX,
    ensures
        r == after_bad(*sample, attempts@, d),
{
    let fits = d.max_encoded_percent.get().at_least(sample.enc.encode_percent);
    if !fits || sample.q == d.min_q {
        return Err(Error::NoGoodCrf { last: *sample });
    }
    let found = find_lower(attempts, sample.q);
    proof {
        law_bounds_are_nearest(attempts@, sample.q as int);
    }
    match found {
        Some(lower) => {
            let lower_score = crf_search::output_search_score(&lower.enc, d.use_xpsnr);
            if lower.q + 1 == sample.q && lower_score.at_least(d.min_score) {
                let lower_fits = d.max_encoded_percent.get().at_least(lower.enc.encode_percent);
                match Error::ensure_or_no_good_crf(lower_fits, sample) {
                    Ok(_) => Ok(
                        SearchTransition::RunResultThenDone { run_result: *sample, done: lower },
                    ),
                    Err(e) => Err(e),
                }
            } else {
                Ok(SearchTransition::Interpolate { worse: *sample, better: lower })
            }
        },
        None => {
            if d.cut_on_iter2 && d.run == 1 && sample.q > d.min_q + 1 {
                Ok(SearchTransition::Cut { from_q: sample.q, to_q: d.min_q })
            } else {
                Ok(SearchTransition::Continue { next_q: d.min_q })
            }
        },
    }
}

/// Decides how a search goes on after an attempt, which is one of `attempts`.
pub fn decide_next_transition(
    sample: &Sample,
    score: Single,
    attempts: &[Sample],
    decision: SearchDecision,
) -> (r: Result<SearchTransition, Error>)
    requires
        sample.q < i64::MAX,
        decision.min_q < i64::MAX,
    ensures
        r == transition(*sample, score, attempts@, decision),
{
    if score.at_least(decision.min_score) {
        good_transition(sample, score, attempts, decision)
    } else {
        bad_transition(sample, attempts, decision)
    }
}

/// What a search finds has the score and the size that are asked for.
pub proof fn law_found_is_acceptable(sample: Sample, attempts: Seq<Sample>, d: SearchDecision)
    ensures
        ({
            let score = crf_search::search_score(sample.enc, d.use_xpsnr);
            match transition(sample, score, attempts, d) {
                Ok(SearchTransition::Done(s)) => s == sample && acceptable(s, d),
                Ok(SearchTransition::RunResultThenDone { run_result, done }) => run_result == sample
                    && acceptable(done, d) && attempts.contains(done),
                _ => true,
            }
        }),
{
    law_bounds_are_nearest(attempts, sample.q as int);
}

/// A search fails only where no crf is left that could do: the attempt lacks
/// the score and is too large already, or lacks it at the best quality there
/// is, or has it, is too large, and its worse neighbour was tried or does not
/// exist, or lacks it while its better neighbour has it and is too large.
pub proof fn law_fails_only_where_no_crf_is_left(
    sample: Sample,
    score: Single,
    attempts: Seq<Sample>,
    d: SearchDecision,
)
    ensures
        ({
            let has_score = score.ge(d.min_score);
            let fits = d.max_encoded_percent.percent().ge(sample.enc.encode_percent);
            let failed = transition(sample, score, attempts, d);
            failed is Err ==> {
                &&& failed == Err::<SearchTransition, Error>(Error::NoGoodCrf { last: sample })
                &&& {
                    ||| !has_score && !fits
                    ||| !has_score && sample.q == d.min_q
                    ||| has_score && !fits && (sample.q == d.max_q || exists|i: int|
                        0 <= i < attempts.len() && (#[trigger] attempts[i]).q == sample.q + 1)
                    ||| !has_score && exists|i: int|
                        0 <= i < attempts.len() && (#[trigger] attempts[i]).q == sample.q - 1
                            && crf_search::search_score(attempts[i].enc, d.use_xpsnr).ge(
                            d.min_score,
                        ) && !d.max_encoded_percent.percent().ge(attempts[i].enc.encode_percent)
                }
            }
        }),
{
    law_bounds_are_nearest(attempts, sample.q as int);
    if let Some(u) = upper_bound(attempts, sample.q as int) {
        let i = choose|i: int| 0 <= i < attempts.len() && attempts[i] == u;
        assert(attempts[i] == u);
    }
    if let Some(l) = lower_bound(attempts, sample.q as int) {
        let i = choose|i: int| 0 <= i < attempts.len() && attempts[i] == l;
        assert(attempts[i] == l);
    }
}

/// An attempt that has the score, with a worse quality left that was not
/// tried, never ends a search in an error, however large it is.
pub proof fn law_good_score_goes_on(
    sample: Sample,
    score: Single,
    attempts: Seq<Sample>,
    d: SearchDecision,
)
    requires
        score.ge(d.min_score),
        sample.q < d.max_q,
        forall|i: int| 0 <= i < attempts.len() ==> (#[trigger] attempts[i]).q != sample.q + 1,
    ensures
        transition(sample, score, attempts, d) is Ok,
{
    law_fails_only_where_no_crf_is_left(sample, score, attempts, d);
}

/// A search goes on towards a worse quality after an attempt that has the
/// score, and towards a better one after an attempt that lacks it. A quality
/// beyond all attempts is looked for at the end of the range, one among them
/// between the attempt and its nearest neighbour on that side.
pub proof fn law_search_goes_towards_the_score(
    sample: Sample,
    score: Single,
    attempts: Seq<Sample>,
    d: SearchDecision,
)
    requires
        d.min_q <= sample.q <= d.max_q,
    ensures
        ({
            let has_score = score.ge(d.min_score);
            let beyond = if has_score {
                d.max_q
            } else {
                d.min_q
            };
            match transition(sample, score, attempts, d) {
                Ok(SearchTransition::Continue { next_q }) => {
                    &&& next_q == beyond
                    &&& has_score ==> next_q > sample.q && (forall|i: int|
                        0 <= i < attempts.len() ==> (#[trigger] attempts[i]).q <= sample.q)
                    &&& !has_score ==> next_q < sample.q && (forall|i: int|
                        0 <= i < attempts.len() ==> (#[trigger] attempts[i]).q >= sample.q)
                },
                Ok(SearchTransition::Cut { from_q, to_q }) => {
                    &&& from_q == sample.q
                    &&& to_q == beyond
                    &&& d.run == 1
                    &&& d.cut_on_iter2
                    &&& has_score ==> from_q + 1 < to_q
                    &&& !has_score ==> to_q + 1 < from_q
                },
                Ok(SearchTransition::Interpolate { worse, better }) => {
                    &&& better.q < worse.q
                    &&& has_score ==> better == sample && attempts.contains(worse) && better.q + 1
                        < worse.q
                    &&& !has_score ==> worse == sample && attempts.contains(better)
                    &&& forall|i: int|
                        0 <= i < attempts.len() ==> !(better.q < (#[trigger] attempts[i]).q
                            < worse.q)
                },
                _ => true,
            }
        }),
{
    law_bounds_are_nearest(attempts, sample.q as int);
}

/// A search is done with an attempt that has the score and fits, where its
/// score is close enough above the minimum, where its worse neighbour was
/// tried, or where there is no worse quality; it goes on from any other such
/// attempt.
pub proof fn law_done_where_nothing_better_is_expected(
    sample: Sample,
    score: Single,
    attempts: Seq<Sample>,
    d: SearchDecision,
)
    requires
        sample.q <= d.max_q,
        forall|i: int| 0 <= i < attempts.len() ==> (#[trigger] attempts[i]).q <= d.max_q,
        score.ge(d.min_score),
        d.max_encoded_percent.percent().ge(sample.enc.encode_percent),
    ensures
        transition(sample, score, attempts, d) == Ok::<SearchTransition, Error>(
            SearchTransition::Done(sample),
        ) <==> {
            ||| score.lt(d.tolerance_top) && (d.thorough || d.band_top.ge(score))
            ||| sample.q == d.max_q
            ||| exists|i: int|
                0 <= i < attempts.len() && (#[trigger] attempts[i]).q == sample.q + 1
        },
        transition(sample, score, attempts, d) is Ok,
{
    law_bounds_are_nearest(attempts, sample.q as int);
    if let Some(u) = upper_bound(attempts, sample.q as int) {
        let i = choose|i: int| 0 <= i < attempts.len() && attempts[i] == u;
        assert(attempts[i] == u);
    }
}

/// After an attempt that lacks the score, fits, and is not of the best quality,
/// a search that has its better neighbour with the score is over: with that
/// neighbour where it fits, without a result where it does not. Without such a
/// neighbour it goes on.
pub proof fn law_bad_score_ends_at_a_good_neighbour(
    sample: Sample,
    score: Single,
    attempts: Seq<Sample>,
    d: SearchDecision,
)
    requires
        !score.ge(d.min_score),
        d.max_encoded_percent.percent().ge(sample.enc.encode_percent),
        sample.q != d.min_q,
        forall|i: int, j: int|
            0 <= i < j < attempts.len() ==> (#[trigger] attempts[i]).q != (
            #[trigger] attempts[j]).q,
    ensures
        forall|i: int|
            0 <= i < attempts.len() && (#[trigger] attempts[i]).q == sample.q - 1
                && crf_search::search_score(attempts[i].enc, d.use_xpsnr).ge(d.min_score) ==> (
            if d.max_encoded_percent.percent().ge(attempts[i].enc.encode_percent) {
                transition(sample, score, attempts, d) == Ok::<SearchTransition, Error>(
                    SearchTransition::RunResultThenDone { run_result: sample, done: attempts[i] },
                )
            } else {
                transition(sample, score, attempts, d) is Err
            }),
        (forall|i: int|
            0 <= i < attempts.len() && (#[trigger] attempts[i]).q == sample.q - 1
                ==> !crf_search::search_score(attempts[i].enc, d.use_xpsnr).ge(d.min_score))
            ==> match transition(sample, score, attempts, d) {
            Ok(SearchTransition::Continue { .. }) => true,
            Ok(SearchTransition::Cut { .. }) => true,
            Ok(SearchTransition::Interpolate { .. }) => true,
            _ => false,
        },
{
    law_bounds_are_nearest(attempts, sample.q as int);
    if let Some(l) = lower_bound(attempts, sample.q as int) {
        let k = choose|i: int| 0 <= i < attempts.len() && attempts[i] == l;
        assert(attempts[k] == l);
        assert forall|i: int|
            0 <= i < attempts.len() && (#[trigger] attempts[i]).q == sample.q - 1 implies i == k by {
            assert(attempts[i].q <= l.q);
            if i < k {
                assert(attempts[i].q != attempts[k].q);
            } else if k < i {
                assert(attempts[k].q != attempts[i].q);
            }
        }
    }
}

// ---- interpolation ----

/// Whether the two attempts lie on both sides of the minimum score, the one
/// with the higher q below it.
pub open spec fn straddles(min: Single, worse: Sample, better: Sample, use_xpsnr: bool) -> bool {
    let w = crf_search::search_score(worse.enc, use_xpsnr);
    let b = crf_search::search_score(better.enc, use_xpsnr);
    min.ge(w) && w.lt(b) && worse.q > better.q
}

/// Half of a number, rounded towards zero.
pub open spec fn half(n: int) -> int {
    if n >= 0 {
        n / 2
    } else {
        -((-n) / 2)
    }
}

/// The next q between two attempts, where `lerp` is the q at which a line
/// through their scores meets the minimum score. Scores between which there is
/// no such line give the middle.
pub open spec fn lerp_q(min: Single, worse: Sample, better: Sample, use_xpsnr: bool, lerp: i64) -> int {
    if !straddles(min, worse, better, use_xpsnr) {
        half(worse.q + better.q)
    } else if better.q + 1 > worse.q - 1 {
        if crf_search::search_score(better.enc, use_xpsnr).lt(min) {
            better.q - 1
        } else {
            worse.q as int
        }
    } else if lerp < better.q + 1 {
        better.q + 1
    } else if lerp > worse.q - 1 {
        worse.q - 1
    } else {
        lerp as int
    }
}

/// Produce a q value between given samples using score linear interpolation
/// so the output q value should produce the minimum score.
///
/// Note: `worse` will be a numerically higher q value (worse quality),
///       `better` a numerically lower q value (better quality).
pub fn vmaf_lerp_q(min_score: Single, worse: &Sample, better: &Sample, use_xpsnr: bool, lerp: i64) -> (r:
    i64)
    requires
        !straddles(min_score, *worse, *better, use_xpsnr) ==> i64::MIN < worse.q + better.q
            <= i64::MAX,
        straddles(min_score, *worse, *better, use_xpsnr) ==> better.q > i64::MIN,
    ensures
        r == lerp_q(min_score, *worse, *better, use_xpsnr, lerp),
{
    let worse_score = crf_search::output_search_score(&worse.enc, use_xpsnr);
    let better_score = crf_search::output_search_score(&better.enc, use_xpsnr);
    let usable = min_score.at_least(worse_score) && worse_score.less_than(better_score) && worse.q
        > better.q;
    if !usable {
        let sum: i64 = worse.q + better.q;
        return if sum >= 0 {
            sum / 2
        } else {
            -((-sum) / 2)
        };
    }
    let lo: i64 = better.q + 1;
    let hi: i64 = worse.q - 1;
    if lo > hi {
        // Target score is outside the range between the two samples.
        if better_score.less_than(min_score) {
            return better.q - 1;
        }
        return worse.q;
    }
    if lerp < lo {
        lo
    } else if lerp > hi {
        hi
    } else {
        lerp
    }
}

/// Between two attempts that are not neighbours the next q lies strictly
/// between them, whatever their scores are.
pub proof fn law_lerp_between(min: Single, worse: Sample, better: Sample, use_xpsnr: bool, lerp: i64)
    requires
        better.q + 1 < worse.q,
    ensures
        better.q < lerp_q(min, worse, better, use_xpsnr, lerp) < worse.q,
{
}

/// Between two attempts that are not neighbours and whose scores lie around the
/// minimum, the next q is the one at which the line meets the minimum where
/// that lies between them, and else the neighbour that is nearest to it. With
/// other scores it is the middle.
pub proof fn law_lerp_is_nearest_to_the_line(
    min: Single,
    worse: Sample,
    better: Sample,
    use_xpsnr: bool,
    lerp: i64,
)
    requires
        better.q + 1 < worse.q,
    ensures
        ({
            let w = crf_search::search_score(worse.enc, use_xpsnr);
            let b = crf_search::search_score(better.enc, use_xpsnr);
            let next = lerp_q(min, worse, better, use_xpsnr, lerp);
            if min.ge(w) && w.lt(b) {
                &&& better.q < lerp < worse.q ==> next == lerp
                &&& lerp <= better.q ==> next == better.q + 1
                &&& lerp >= worse.q ==> next == worse.q - 1
            } else {
                -1 <= (worse.q - next) - (next - better.q) <= 1
            }
        }),
{
}

/// What a search is done with has at least the minimum score and is no larger
/// than allowed; an attempt of before that it falls back to is the better
/// neighbour of the last one.
pub proof fn law_done_has_score_and_size(
    sample: Sample,
    score: Single,
    attempts: Seq<Sample>,
    d: SearchDecision,
)
    ensures
        match transition(sample, score, attempts, d) {
            Ok(SearchTransition::Done(s)) => s == sample && score.ge(d.min_score)
                && d.max_encoded_percent.percent().ge(s.enc.encode_percent),
            Ok(SearchTransition::RunResultThenDone { run_result, done }) => {
                &&& run_result == sample
                &&& done.q == sample.q - 1
                &&& crf_search::search_score(done.enc, d.use_xpsnr).ge(d.min_score)
                &&& d.max_encoded_percent.percent().ge(done.enc.encode_percent)
                &&& !score.ge(d.min_score)
            },
            _ => true,
        },
        forall|s: Sample| #[trigger]
            acceptable(s, d) <==> crf_search::search_score(s.enc, d.use_xpsnr).ge(d.min_score)
                && d.max_encoded_percent.percent().ge(s.enc.encode_percent),
{
}

/// Where the first run does not end a search and cutting is asked for, the second
/// one is cut towards the bound, if there is more than one q between; any other
/// search that has tried nothing on that side goes to the bound itself.
pub proof fn law_second_run_is_cut_where_asked(
    sample: Sample,
    score: Single,
    attempts: Seq<Sample>,
    d: SearchDecision,
)
    requires
        d.min_q < sample.q < d.max_q,
    ensures
        ({
            let fits = d.max_encoded_percent.percent().ge(sample.enc.encode_percent);
            let close = score.lt(d.tolerance_top) && (d.thorough || d.band_top.ge(score));
            let cuts = d.cut_on_iter2 && d.run == 1;
            let next = transition(sample, score, attempts, d);
            &&& score.ge(d.min_score) && !(fits && close) && (forall|i: int|
                0 <= i < attempts.len() ==> (#[trigger] attempts[i]).q <= sample.q) ==> next == Ok::<
                SearchTransition,
                Error,
            >(
                if cuts && d.max_q - sample.q > 1 {
                    SearchTransition::Cut { from_q: sample.q, to_q: d.max_q }
                } else {
                    SearchTransition::Continue { next_q: d.max_q }
                },
            )
            &&& !score.ge(d.min_score) && fits && (forall|i: int|
                0 <= i < attempts.len() ==> (#[trigger] attempts[i]).q >= sample.q) ==> next == Ok::<
                SearchTransition,
                Error,
            >(
                if cuts && sample.q - d.min_q > 1 {
                    SearchTransition::Cut { from_q: sample.q, to_q: d.min_q }
                } else {
                    SearchTransition::Continue { next_q: d.min_q }
                },
            )
        }),
{
    law_bounds_are_nearest(attempts, sample.q as int);
    if let Some(u) = upper_bound(attempts, sample.q as int) {
        let i = choose|i: int| 0 <= i < attempts.len() && attempts[i] == u;
        assert(attempts[i] == u);
    }
    if let Some(l) = lower_bound(attempts, sample.q as int) {
        let i = choose|i: int| 0 <= i < attempts.len() && attempts[i] == l;
        assert(attempts[i] == l);
    }
}

/// Between an attempt and its nearest neighbour on the side that a search goes
/// to, the search interpolates, if there is a q between them.
pub proof fn law_interpolates_up_to_the_neighbour(
    sample: Sample,
    score: Single,
    attempts: Seq<Sample>,
    d: SearchDecision,
    k: int,
)
    requires
        0 <= k < attempts.len(),
        sample.q < attempts[k].q,
        forall|i: int|
            0 <= i < attempts.len() && i != k ==> !(sample.q < (#[trigger] attempts[i]).q
                <= attempts[k].q),
        score.ge(d.min_score),
        !d.max_encoded_percent.percent().ge(sample.enc.encode_percent) || !score.lt(
            d.tolerance_top,
        ),
        sample.q + 1 < attempts[k].q,
    ensures
        transition(sample, score, attempts, d) == Ok::<SearchTransition, Error>(
            SearchTransition::Interpolate { worse: attempts[k], better: sample },
        ),
{
    law_bounds_are_nearest(attempts, sample.q as int);
    match upper_bound(attempts, sample.q as int) {
        Some(u) => {
            let i = choose|i: int| 0 <= i < attempts.len() && attempts[i] == u;
            assert(attempts[i] == u);
            assert(attempts[k].q >= u.q);
            assert(i == k);
        },
        None => {
            assert(attempts[k].q <= sample.q);
        },
    }
}

/// Neighbours have no q between them: from those whose scores lie around the
/// minimum the search goes to the worse one, or past the better one where even
/// that lacks the score.
pub proof fn law_no_q_between_neighbours(
    min: Single,
    worse: Sample,
    better: Sample,
    use_xpsnr: bool,
    lerp: i64,
)
    requires
        worse.q == better.q + 1,
        min.ge(crf_search::search_score(worse.enc, use_xpsnr)),
        crf_search::search_score(worse.enc, use_xpsnr).lt(
            crf_search::search_score(better.enc, use_xpsnr),
        ),
    ensures
        lerp_q(min, worse, better, use_xpsnr, lerp) == (if crf_search::search_score(
            better.enc,
            use_xpsnr,
        ).lt(min) {
            better.q - 1
        } else {
            worse.q as int
        }),
{
}

} // verus!
