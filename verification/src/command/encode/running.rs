//! Running an encode and checking its output.
use crate::command::encode::lifecycle::CompletedOutput;
use crate::command::encode::progress;
use crate::command::encode::progress::{BarUpdate, EncodeEvent, ProgressState, StreamSizes};
use crate::duration;
use crate::duration::Duration;
use crate::float::{Double, Single};
use crate::outside;
use crate::text;
use vstd::prelude::*;

verus! {

broadcast use vstd::string::group_string_axioms;

/// The most seconds by which the output's duration may differ from the input's.
pub const VERIFY_DURATION_TOLERANCE_SECS: u64 = 2;

/// How much slower the progress bar moves while the output is decoded.
pub const VERIFY_BAR_DIVISOR: u64 = 2;

/// A finished encode.
#[derive(Debug, PartialEq, Eq)]
pub struct EncodeRun {
    pub input: String,
    pub output: CompletedOutput,
    pub stream_sizes: Option<StreamSizes>,
}

/// The span without the part below a millisecond.
pub open spec fn floored(nanos: nat) -> nat {
    duration::least(nanos / 1_000_000, u64::MAX as nat) * 1_000_000
}

/// The span without the part below a millisecond, as far as 64 bits hold the
/// milliseconds.
pub fn floor_ms(d: Duration) -> (r: Duration)
    ensures
        r@ == floored(d@),
{
    let ms: u128 = d.as_millis();
    if ms > u64::MAX as u128 {
        Duration::from_millis(u64::MAX)
    } else {
        Duration::from_millis(ms as u64)
    }
}

/// Where the encode is: where ffmpeg says it is, or, where it says nothing and
/// the frame rate of the source is known, where the frame is, which is
/// `frame_time`.
pub fn media_time(reported: Duration, source_fps: Double, frame_time: Duration) -> (r: Duration)
    ensures
        r == (if reported@ == 0 && (Double { bits: 0 }).lt(source_fps) {
            frame_time
        } else {
            reported
        }),
{
    if reported.is_zero() && Double::from_bits(0).less_than(source_fps) {
        frame_time
    } else {
        reported
    }
}

/// The length of the progress bar of an input.
pub fn bar_length(input: Duration) -> (r: u64)
    ensures
        r == (if input@ < 1_000 {
            1
        } else {
            duration::least(input@ / 1_000, u64::MAX as nat)
        }),
        r >= 1,
{
    let us: u64 = input.as_micros_u64();
    if us == 0 {
        1
    } else {
        us
    }
}

/// What changes on the progress bar.
#[derive(Debug, PartialEq, Eq)]
pub struct Tick {
    pub message: String,
    pub position: Option<u64>,
    pub time: Duration,
}

/// What is known where an event comes in: the frame rate of the source, the
/// time of the event's frame at that rate, whether the duration of the input is
/// known, and how the event's frame rate is written.
pub struct EventContext<'a> {
    pub source_fps: Double,
    pub frame_time: Duration,
    pub duration_known: bool,
    pub fps_text: &'a str,
}

/// ffmpeg has reported something: sizes are kept, and progress with a frame
/// rate moves the bar, whose position follows the time where the input's
/// duration is known.
pub fn on_event(state: &mut ProgressState, event: EncodeEvent, context: &EventContext) -> (r: Option<
    Tick,
>)
    ensures
        match event {
            EncodeEvent::StreamSizes(sizes) => final(state).stream_sizes == Some(sizes)
                && r is None,
            EncodeEvent::Progress { fps, time, .. } => {
                &&& *final(state) == *old(state)
                &&& r is Some <==> (Single { bits: 0 }).lt(fps)
                &&& r matches Some(tick) ==> {
                    &&& tick.message@ == context.fps_text@ + " fps, "@
                    &&& tick.time == (if time@ == 0 && (Double { bits: 0 }).lt(
                        context.source_fps,
                    ) {
                        context.frame_time
                    } else {
                        time
                    })
                    &&& tick.position == (if context.duration_known {
                        Some(duration::least(tick.time@ / 1_000, u64::MAX as nat) as u64)
                    } else {
                        None
                    })
                }
            },
        },
{
    match progress::apply_ffmpeg_event(state, event) {
        Some(BarUpdate::Fps { time, .. }) => {
            let time = media_time(time, context.source_fps, context.frame_time);
            let position = if context.duration_known {
                Some(time.as_micros_u64())
            } else {
                None
            };
            Some(Tick { message: text::cat2(context.fps_text, " fps, "), position, time })
        },
        None => None,
    }
}

/// What the progress bar says while the output is decoded. `fps_text` is how
/// the frame rate is written.
pub fn verify_message(fps: Single, fps_text: &str) -> (r: String)
    ensures
        r@ == (if (Single { bits: 0 }).lt(fps) {
            "verifying "@ + fps_text@ + " fps, "@
        } else {
            "verifying, "@
        }),
{
    if Single::from_bits(0).less_than(fps) {
        text::cat3("verifying ", fps_text, " fps, ")
    } else {
        "verifying, ".to_owned()
    }
}

/// Where the progress bar is while the output is decoded: behind the encode, at
/// half the time.
pub fn verify_position(input: Duration, time: Duration) -> (r: u64)
    requires
        duration::least(input@ / 1_000, u64::MAX as nat) + duration::least(
            time@ / 1_000,
            u64::MAX as nat,
        ) / 2 <= u64::MAX,
    ensures
        r == duration::least(input@ / 1_000, u64::MAX as nat) + duration::least(
            time@ / 1_000,
            u64::MAX as nat,
        ) / 2,
{
    input.as_micros_u64() + time.as_micros_u64() / VERIFY_BAR_DIVISOR
}

/// Whether the duration of the output is compared with that of the input: only
/// where this is asked for and the input has a duration.
fn checks_duration(wanted: bool, expected: Option<Duration>) -> (r: bool)
    ensures
        r == (wanted && (expected matches Some(d) && d@ > 0)),
{
    match expected {
        Some(d) => wanted && !d.is_zero(),
        None => false,
    }
}

/// A stage of an encode.
#[derive(Debug, Clone, Copy, PartialEq, Eq, Structural)]
pub enum RunStage {
    /// ffmpeg writes the output.
    Encode,
    /// The output is decoded, to see that this can be done.
    VerifyDecode,
    /// The duration of the output is compared with that of the input.
    VerifyDuration,
    /// The output is complete and stays.
    Commit,
}

/// Which checks are asked for.
#[derive(Debug, Clone, Copy, PartialEq, Eq, Structural)]
pub struct Verification {
    pub decode: bool,
    pub duration: bool,
}

/// The stage after one that went well. The checks come while the output can
/// still be thrown away.
pub open spec fn stage_after(stage: RunStage, verify: Verification, timed: bool) -> RunStage {
    match stage {
        RunStage::Encode => if verify.decode {
            RunStage::VerifyDecode
        } else if verify.duration && timed {
            RunStage::VerifyDuration
        } else {
            RunStage::Commit
        },
        RunStage::VerifyDecode => if verify.duration && timed {
            RunStage::VerifyDuration
        } else {
            RunStage::Commit
        },
        RunStage::VerifyDuration => RunStage::Commit,
        RunStage::Commit => RunStage::Commit,
    }
}

/// The stage after one that went well. `expected` is the duration of the input,
/// if it is known.
pub fn next_stage(stage: RunStage, verify: Verification, expected: Option<Duration>) -> (r: RunStage)
    ensures
        r == stage_after(stage, verify, expected matches Some(d) && d@ > 0),
{
    let compares = checks_duration(verify.duration, expected);
    match stage {
        RunStage::Encode => if verify.decode {
            RunStage::VerifyDecode
        } else if compares {
            RunStage::VerifyDuration
        } else {
            RunStage::Commit
        },
        RunStage::VerifyDecode => if compares {
            RunStage::VerifyDuration
        } else {
            RunStage::Commit
        },
        RunStage::VerifyDuration => RunStage::Commit,
        RunStage::Commit => RunStage::Commit,
    }
}

/// An output stays only after each check that was asked for: from the encode on
/// the stages lead through it.
pub proof fn law_checks_before_commit(verify: Verification, timed: bool)
    ensures
        ({
            let second = stage_after(RunStage::Encode, verify, timed);
            let third = stage_after(second, verify, timed);
            &&& verify.decode ==> second == RunStage::VerifyDecode
            &&& verify.duration && timed ==> second == RunStage::VerifyDuration || (second
                == RunStage::VerifyDecode && third == RunStage::VerifyDuration)
            &&& stage_after(third, verify, timed) == RunStage::Commit
        }),
{
}

/// No check is made that was not asked for, the duration is checked only where
/// the input has one, and a stage is never gone back to.
pub proof fn law_only_asked_checks(stage: RunStage, verify: Verification, timed: bool)
    ensures
        ({
            let next = stage_after(stage, verify, timed);
            &&& next != RunStage::Encode
            &&& next == RunStage::VerifyDecode ==> verify.decode && stage == RunStage::Encode
            &&& next == RunStage::VerifyDuration ==> verify.duration && timed && (stage
                == RunStage::Encode || stage == RunStage::VerifyDecode)
            &&& stage == RunStage::VerifyDuration || stage == RunStage::Commit ==> next
                == RunStage::Commit
        }),
{
}

/// A span is shown without the part below a millisecond: no longer than it is,
/// by less than a millisecond, in whole milliseconds.
pub proof fn law_floored_to_the_millisecond(nanos: nat)
    requires
        nanos / 1_000_000 <= u64::MAX,
    ensures
        floored(nanos) <= nanos < floored(nanos) + 1_000_000,
        floored(nanos) % 1_000_000 == 0,
{
}

/// Whether an output of this duration can be all of an input of that one.
pub open spec fn durations_agree(expected: nat, actual: nat) -> bool {
    duration::distance(expected, actual) <= 2_000_000_000
}

/// An output may be two seconds shorter or longer than its input, and no more.
pub proof fn law_two_seconds_of_tolerance(expected: nat, actual: nat)
    ensures
        durations_agree(expected, actual) <==> actual <= expected + 2_000_000_000 && expected
            <= actual + 2_000_000_000,
        durations_agree(expected, actual) == durations_agree(actual, expected),
{
}

/// Compares the duration of the output with that of the input.
pub fn verify_duration(expected: Duration, actual: Duration) -> (r: Result<(), String>)
    ensures
        r is Ok <==> durations_agree(expected@, actual@),
        r matches Err(e) ==> e@ == "verify: output duration "@ + outside::span_text(
            floored(actual@),
        ) + " does not match input duration "@ + outside::span_text(floored(expected@)),
{
    let tolerance = Duration::from_secs(VERIFY_DURATION_TOLERANCE_SECS);
    if expected.abs_diff(actual).at_most(&tolerance) {
        return Ok(());
    }
    let was = outside::format_span(floor_ms(actual));
    let should = outside::format_span(floor_ms(expected));
    Err(
        text::cat4(
            "verify: output duration ",
            was.as_str(),
            " does not match input duration ",
            should.as_str(),
        ),
    )
}

} // verus!
