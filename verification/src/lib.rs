use vstd::prelude::*;

pub mod command;
pub mod duration;
pub mod ffmpeg;
pub mod ffprobe;
pub mod float;
pub mod outside;
pub mod path;
pub mod process;
pub mod span;
pub mod style;
pub mod temporary;
pub mod text;

verus! {

} // verus!
