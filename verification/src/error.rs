//! The one error of the library: a configuration that cannot be used.

use vstd::prelude::*;

verus! {

/// Why a configuration was refused.
#[derive(Clone, Copy, Debug, PartialEq, Eq, Structural)]
pub enum ConfigError {
    /// The sample rate is zero.
    ZeroSampleRate,
    /// The window holds no samples.
    ZeroWindowLength,
    /// No frequency band was given.
    NoBands,
    /// A band's bins do not lie in order inside the window.
    BandOutOfRange,
    /// The number of notes per second is zero.
    ZeroNoteRate,
    /// Aggregation was asked to form groups of no vectors.
    ZeroGroupSize,
}

} // verus!
