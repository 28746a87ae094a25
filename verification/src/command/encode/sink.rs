//! Where progress is shown.
use vstd::prelude::*;

verus! {

/// Encode execution progress sink.
pub trait ProgressSink {
    /// Shows a message.
    fn set_message(&self, msg: &str);

    /// Moves to a position.
    fn set_position(&self, pos: u64);

    /// Shows that the work is done.
    fn finish(&self);
}

} // verus!
