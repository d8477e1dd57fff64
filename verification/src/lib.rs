//! Core of a real-time audio-to-spectrum pipeline.
//!
//! Hardware callbacks deliver interleaved multi-channel sample buffers; the
//! pipeline extracts one channel, accumulates fixed-length frames, and hands
//! each completed frame on for spectral analysis.  Samples are carried as
//! opaque 32-bit words (the bit encoding of the device's float samples): the
//! framing logic only moves samples and never does arithmetic on them, so the
//! whole data path up to the transform is verified here.  The transform
//! itself and the device binding are floating point and I/O and live outside
//! the library.

use vstd::prelude::*;

mod capture;
mod frame;

pub use capture::CapturePipeline;
pub use capture::StartupError;
pub use capture::extract_channel;
pub use capture::extracted;
pub use capture::extracted_len;
pub use capture::lemma_channel_selection;
pub use capture::lemma_exact_framing;
pub use capture::lemma_full_signal_exactly_on_nth;
pub use frame::FrameAccumulator;

verus! {

/// Number of single-channel samples in one analysis frame.
pub const FRAME_SIZE: usize = 1024;

} // verus!
