//! Progress of an encode.
use crate::duration::Duration;
use crate::float::Single;
use vstd::prelude::*;

verus! {

/// Per-stream byte sizes reported by ffmpeg at end of encode.
#[derive(Debug, Clone, Copy, PartialEq, Eq, Structural)]
pub struct StreamSizes {
    pub video: u64,
    pub audio: u64,
    pub subtitle: u64,
    pub other: u64,
}

/// What ffmpeg reports of an encode, with its numbers read.
#[derive(Debug, Clone, Copy, PartialEq, Eq, Structural)]
pub enum EncodeEvent {
    Progress { frame: u64, fps: Single, time: Duration },
    StreamSizes(StreamSizes),
}

/// Progress bar updates derived from ffmpeg stderr events.
#[derive(Debug, Clone, Copy, PartialEq, Eq, Structural)]
pub enum BarUpdate {
    Fps { frame: u64, fps: Single, time: Duration },
}

/// Mutable encode progress state updated by [`apply_ffmpeg_event`].
#[derive(Debug, Clone, Copy, PartialEq, Eq, Structural)]
pub struct ProgressState {
    pub stream_sizes: Option<StreamSizes>,
}

impl Default for ProgressState {
    fn default() -> (r: Self)
        ensures
            r.stream_sizes is None,
    {
        Self { stream_sizes: None }
    }
}

/// Progress with a frame rate moves the bar. Sizes are kept, the last ones of
/// them.
pub fn apply_ffmpeg_event(state: &mut ProgressState, event: EncodeEvent) -> (r: Option<BarUpdate>)
    ensures
        match event {
            EncodeEvent::Progress { frame, fps, time } => *final(state) == *old(state) && r == (
            if (Single { bits: 0 }).lt(fps) {
                Some(BarUpdate::Fps { frame, fps, time })
            } else {
                None
            }),
            EncodeEvent::StreamSizes(sizes) => final(state).stream_sizes == Some(sizes)
                && r is None,
        },
{
    match event {
        EncodeEvent::Progress { frame, fps, time } => {
            if Single::from_bits(0).less_than(fps) {
                Some(BarUpdate::Fps { frame, fps, time })
            } else {
                None
            }
        },
        EncodeEvent::StreamSizes(sizes) => {
            state.stream_sizes = Some(sizes);
            None
        },
    }
}

} // verus!
