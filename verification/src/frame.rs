//! Frame accumulation: buffering single-channel samples until a fixed-length
//! frame is complete.

use vstd::prelude::*;

verus! {

/// Collects single-channel samples into frames of a fixed length.
///
/// A sample is an opaque 32-bit word; the accumulator only stores and hands
/// back samples, never interpreting them.  The buffer grows one sample at a
/// time; when it reaches the configured capacity the caller drains it and
/// accumulation restarts from empty.
pub struct FrameAccumulator {
    samples: Vec<u32>,
    capacity: usize,
}

impl FrameAccumulator {
    /// The samples buffered so far, oldest first.
    pub closed spec fn samples(&self) -> Seq<u32> {
        self.samples@
    }

    /// The frame length this accumulator was created with.
    pub closed spec fn cap(&self) -> int {
        self.capacity as int
    }

    /// Well-formedness: the buffer never exceeds the frame length, and the
    /// frame length is positive.
    pub open spec fn wf(&self) -> bool {
        self.samples().len() <= self.cap() && self.cap() >= 1
    }

    /// An empty accumulator for frames of `capacity` samples.
    pub fn new(capacity: usize) -> (acc: Self)
        requires
            capacity >= 1,
        ensures
            acc.wf(),
            acc.cap() == capacity,
            acc.samples() == Seq::<u32>::empty(),
    {
        FrameAccumulator { samples: Vec::new(), capacity }
    }

    /// The frame length this accumulator was created with.
    pub fn capacity(&self) -> (n: usize)
        ensures
            n == self.cap(),
    {
        self.capacity
    }

    /// How many samples are currently buffered.
    pub fn len(&self) -> (n: usize)
        ensures
            n == self.samples().len(),
    {
        self.samples.len()
    }

    /// Whether the buffer holds a complete frame.
    pub fn is_full(&self) -> (full: bool)
        ensures
            full == (self.samples().len() == self.cap()),
    {
        self.samples.len() == self.capacity
    }

    /// Appends one sample and reports whether the buffer has now reached a
    /// complete frame.  The signal comes exactly when the new length equals
    /// the frame length, never earlier or later.
    pub fn push(&mut self, sample: u32) -> (full: bool)
        requires
            old(self).wf(),
            old(self).samples().len() < old(self).cap(),
        ensures
            final(self).wf(),
            final(self).cap() == old(self).cap(),
            final(self).samples() == old(self).samples().push(sample),
            full == (final(self).samples().len() == final(self).cap()),
    {
        self.samples.push(sample);
        self.samples.len() == self.capacity
    }

    /// Takes the completed frame out and resets the buffer to empty.  Only
    /// callable on a full buffer; the returned frame is exactly the buffered
    /// samples, in arrival order.
    pub fn drain(&mut self) -> (frame: Vec<u32>)
        requires
            old(self).wf(),
            old(self).samples().len() == old(self).cap(),
        ensures
            final(self).wf(),
            final(self).cap() == old(self).cap(),
            frame@ == old(self).samples(),
            frame@.len() == old(self).cap(),
            final(self).samples() == Seq::<u32>::empty(),
    {
        let mut frame: Vec<u32> = Vec::new();
        core::mem::swap(&mut frame, &mut self.samples);
        frame
    }
}

} // verus!
