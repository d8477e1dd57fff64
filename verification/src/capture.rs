//! The capture driver's data path: de-interleaving multi-channel hardware
//! buffers into one channel stream and framing that stream.

use vstd::prelude::*;
use crate::frame::FrameAccumulator;

verus! {

/// How many samples a stride walk picks out of an interleaved buffer of
/// `len` samples with `channels` interleaved channels: one per complete or
/// partial channel group.
pub open spec fn extracted_len(len: int, channels: int) -> int
    recommends
        len >= 0,
        channels >= 1,
{
    len / channels + if len % channels != 0 { 1int } else { 0int }
}

/// The single-channel stream taken from an interleaved buffer: sample `i` of
/// the result is sample `i * channels` of the buffer, so exactly the first
/// entry of every channel group is kept and the walk advances by exactly
/// `channels` positions per step.
pub open spec fn extracted(data: Seq<u32>, channels: int) -> Seq<u32>
    recommends
        channels >= 1,
{
    Seq::new(extracted_len(data.len() as int, channels) as nat, |i: int| data[i * channels])
}

/// The stride walk picks at most one sample per buffer sample.
proof fn lemma_extracted_len_bounds(len: int, channels: int)
    requires
        len >= 0,
        channels >= 1,
    ensures
        0 <= extracted_len(len, channels) <= len,
{
    let q = len / channels;
    let r = len % channels;
    vstd::arithmetic::div_mod::lemma_fundamental_div_mod(len, channels);
    assert(q >= 0 && 0 <= r < channels) by (nonlinear_arith)
        requires
            len >= 0,
            channels >= 1,
            q == len / channels,
            r == len % channels,
    ;
    assert(q <= channels * q) by (nonlinear_arith)
        requires
            q >= 0,
            channels >= 1,
    ;
}

/// Every index the stride walk reads lies inside the buffer.
proof fn lemma_pick_index_in_range(len: int, channels: int, k: int)
    requires
        len >= 0,
        channels >= 1,
        0 <= k < extracted_len(len, channels),
    ensures
        0 <= k * channels,
        k * channels < len,
{
    let q = len / channels;
    let r = len % channels;
    vstd::arithmetic::div_mod::lemma_fundamental_div_mod(len, channels);
    assert(0 <= r < channels) by (nonlinear_arith)
        requires
            len >= 0,
            channels >= 1,
            r == len % channels,
    ;
    assert(0 <= k * channels && k * channels < len) by (nonlinear_arith)
        requires
            channels >= 1,
            0 <= k,
            len == channels * q + r,
            0 <= r < channels,
            k < q + (if r != 0 { 1int } else { 0int }),
    ;
}

/// Walks an interleaved buffer at stride `channels`, keeping the first sample
/// of every channel group: the single-channel stream the pipeline analyzes.
pub fn extract_channel(data: &Vec<u32>, channels: usize) -> (out: Vec<u32>)
    requires
        channels >= 1,
    ensures
        out@ == extracted(data@, channels as int),
{
    let n = data.len();
    proof {
        lemma_extracted_len_bounds(n as int, channels as int);
    }
    let picks = n / channels + if n % channels != 0 { 1 } else { 0 };
    let mut out: Vec<u32> = Vec::new();
    let mut k: usize = 0;
    while k < picks
        invariant
            channels >= 1,
            n == data@.len(),
            picks == extracted_len(n as int, channels as int),
            picks <= n,
            k <= picks,
            out@.len() == k,
            forall|j: int| 0 <= j < k ==> out@[j] == data@[j * (channels as int)],
        decreases picks - k,
    {
        proof {
            lemma_pick_index_in_range(n as int, channels as int, k as int);
        }
        let sample = data[k * channels];
        out.push(sample);
        k += 1;
    }
    proof {
        assert(out@ =~= extracted(data@, channels as int));
    }
    out
}

/// Channel-selection law: the extracted stream keeps exactly the first
/// sample of every group of `channels` interleaved samples — sample `i` of
/// the result is sample `i * channels` of the buffer, so the walk advances by
/// exactly `channels` positions per kept sample — and with a single channel
/// every sample is kept, unchanged and in order.
pub proof fn lemma_channel_selection(data: Seq<u32>, channels: int)
    requires
        channels >= 1,
    ensures
        forall|i: int| 0 <= i < extracted(data, channels).len() ==> #[trigger] extracted(
            data,
            channels,
        )[i] == data[i * channels],
        extracted(data, 1) == data,
{
    assert(extracted(data, 1) =~= data);
}

/// Framing law: feed an empty accumulator of frame length `n` one sample per
/// `push`.  After `i` pushes the buffer holds exactly the first `i` samples
/// fed (chaining `push`'s postcondition), and `push` signals a full frame
/// exactly when the buffer length equals `n` — so over a stream of samples
/// the signal fires on push number `n` and on no earlier or later one.
pub proof fn lemma_full_signal_exactly_on_nth(inputs: Seq<u32>, n: int, i: int)
    requires
        n >= 1,
        1 <= i <= inputs.len(),
    ensures
        inputs.take(i).len() == n <==> i == n,
{
}

/// Chunk `i` of a sequence is untouched when a sample is appended past the
/// first `f` complete chunks.
proof fn lemma_chunk_stable(total: Seq<u32>, sample: u32, n: int, i: int, f: int)
    requires
        n >= 1,
        0 <= i < f,
        f * n <= total.len(),
    ensures
        total.subrange(i * n, (i + 1) * n) == total.push(sample).subrange(i * n, (i + 1) * n),
{
    vstd::arithmetic::mul::lemma_mul_nonnegative(i, n);
    vstd::arithmetic::mul::lemma_mul_inequality(i, i + 1, n);
    vstd::arithmetic::mul::lemma_mul_inequality(i + 1, f, n);
    assert(total.subrange(i * n, (i + 1) * n) =~= total.push(sample).subrange(i * n, (i + 1) * n));
}

/// Why a capture session cannot start.
#[derive(Clone, Copy, Debug, PartialEq, Eq, Structural)]
pub enum StartupError {
    /// No default audio input device exists.
    NoDeviceFound,
    /// The device reports no usable input configuration.
    UnsupportedConfiguration,
}

/// The capture driver's verified core: the state carried across hardware
/// callbacks — the partially filled frame and the session's channel layout —
/// together with the per-delivery framing step.
pub struct CapturePipeline {
    acc: FrameAccumulator,
    channels: usize,
}

impl CapturePipeline {
    /// The samples of the frame currently being filled, oldest first.
    pub closed spec fn pending(&self) -> Seq<u32> {
        self.acc.samples()
    }

    /// Samples per completed frame.
    pub closed spec fn frame_len(&self) -> int {
        self.acc.cap()
    }

    /// Number of channels interleaved in the hardware buffers.
    pub closed spec fn channels(&self) -> int {
        self.channels as int
    }

    /// Well-formedness: frames are completed and drained as soon as they
    /// fill, so between deliveries the pending frame is always short of full.
    pub open spec fn wf(&self) -> bool {
        &&& self.pending().len() < self.frame_len()
        &&& self.frame_len() >= 1
        &&& self.channels() >= 1
    }

    /// A pipeline with nothing pending, for frames of `frame_len` samples
    /// taken from channel 0 of `channels`-channel interleaved input.
    pub fn new(frame_len: usize, channels: usize) -> (p: Self)
        requires
            frame_len >= 1,
            channels >= 1,
        ensures
            p.wf(),
            p.frame_len() == frame_len,
            p.channels() == channels,
            p.pending() == Seq::<u32>::empty(),
    {
        CapturePipeline { acc: FrameAccumulator::new(frame_len), channels }
    }

    /// Checked construction for callers outside the verified world: succeeds
    /// exactly when both the frame length and the negotiated channel count
    /// are positive, and fails with `UnsupportedConfiguration` otherwise.
    pub fn try_new(frame_len: usize, channels: usize) -> (r: Result<CapturePipeline, StartupError>)
        ensures
            match r {
                Ok(p) => {
                    &&& frame_len >= 1
                    &&& channels >= 1
                    &&& p.wf()
                    &&& p.frame_len() == frame_len
                    &&& p.channels() == channels
                    &&& p.pending() == Seq::<u32>::empty()
                },
                Err(e) => (frame_len < 1 || channels < 1) && e == StartupError::UnsupportedConfiguration,
            },
    {
        if frame_len >= 1 && channels >= 1 {
            Ok(CapturePipeline::new(frame_len, channels))
        } else {
            Err(StartupError::UnsupportedConfiguration)
        }
    }

    /// The configured frame length.
    pub fn frame_size(&self) -> (n: usize)
        ensures
            n == self.frame_len(),
    {
        self.acc.capacity()
    }

    /// The session's interleaved channel count.
    pub fn channel_count(&self) -> (c: usize)
        ensures
            c == self.channels(),
    {
        self.channels
    }

    /// How many samples of the next frame are pending.
    pub fn pending_len(&self) -> (n: usize)
        ensures
            n == self.pending().len(),
    {
        self.acc.len()
    }

    /// One hardware delivery: de-interleaves `data`, appends the kept
    /// channel's samples to the pending frame, and returns every frame
    /// completed along the way, in completion order.
    ///
    /// Writing `total` for the previously pending samples followed by the
    /// newly extracted ones, the completed frames are exactly the consecutive
    /// `frame_len()`-sized chunks of `total`, in order, and what stays
    /// pending is the tail of `total` after those chunks — so a delivery
    /// completes zero, one, or several frames, samples are never reordered,
    /// dropped, or carried across a frame boundary.
    pub fn ingest(&mut self, data: &Vec<u32>) -> (frames: Vec<Vec<u32>>)
        requires
            old(self).wf(),
        ensures
            final(self).wf(),
            final(self).frame_len() == old(self).frame_len(),
            final(self).channels() == old(self).channels(),
            ({
                let total = old(self).pending() + extracted(data@, old(self).channels());
                let n = old(self).frame_len();
                &&& frames@.len() == total.len() as int / n
                &&& (forall|i: int| 0 <= i < frames@.len() ==> (#[trigger] frames@[i])@ == total.subrange(
                    i * n,
                    (i + 1) * n,
                ))
                &&& (forall|i: int| 0 <= i < frames@.len() ==> (#[trigger] frames@[i])@.len() == n)
                &&& final(self).pending() == total.skip(frames@.len() * n)
            }),
    {
        let ghost pending0 = self.pending();
        let ghost n = self.frame_len();
        let ghost c = self.channels();
        let mono = extract_channel(data, self.channels);
        let mut frames: Vec<Vec<u32>> = Vec::new();
        let mut k: usize = 0;
        while k < mono.len()
            invariant
                self.wf(),
                self.frame_len() == n,
                self.channels() == c,
                k <= mono@.len(),
                mono@ == extracted(data@, c),
                ({
                    let total = pending0 + mono@.take(k as int);
                    &&& frames@.len() * n + self.pending().len() == total.len()
                    &&& (forall|i: int| 0 <= i < frames@.len() ==> (#[trigger] frames@[i])@
                        == total.subrange(i * n, (i + 1) * n))
                    &&& self.pending() == total.skip(frames@.len() * n)
                }),
            decreases mono@.len() - k,
        {
            let ghost total = pending0 + mono@.take(k as int);
            let ghost f = frames@.len() as int;
            let sample = mono[k];
            let full = self.acc.push(sample);
            let ghost total1 = total.push(sample);
            proof {
                assert(mono@.take(k as int + 1) =~= mono@.take(k as int).push(mono@[k as int]));
                assert(pending0 + mono@.take(k as int + 1) =~= total1);
                assert(total1.skip(f * n) =~= total.skip(f * n).push(sample));
            }
            if full {
                let fr = self.acc.drain();
                frames.push(fr);
                proof {
                    assert((f + 1) * n == f * n + n) by (nonlinear_arith);
                    assert(fr@ =~= total1.subrange(f * n, (f + 1) * n));
                    assert(self.pending() =~= total1.skip((f + 1) * n));
                    assert forall|i: int| 0 <= i < f implies (#[trigger] frames@[i])@ == total1.subrange(
                        i * n,
                        (i + 1) * n,
                    ) by {
                        assert(frames@[i]@ == total.subrange(i * n, (i + 1) * n));
                        lemma_chunk_stable(total, sample, n, i, f);
                    }
                }
            } else {
                proof {
                    assert forall|i: int| 0 <= i < f implies (#[trigger] frames@[i])@ == total1.subrange(
                        i * n,
                        (i + 1) * n,
                    ) by {
                        assert(frames@[i]@ == total.subrange(i * n, (i + 1) * n));
                        lemma_chunk_stable(total, sample, n, i, f);
                    }
                }
            }
            k += 1;
        }
        proof {
            assert(mono@.take(k as int) =~= mono@);
            let total = pending0 + mono@;
            let f = frames@.len() as int;
            vstd::arithmetic::div_mod::lemma_fundamental_div_mod_converse(
                total.len() as int,
                n,
                f,
                self.pending().len() as int,
            );
            assert forall|i: int| 0 <= i < f implies (#[trigger] frames@[i])@.len() == n by {
                vstd::arithmetic::mul::lemma_mul_nonnegative(i, n);
                vstd::arithmetic::mul::lemma_mul_inequality(i, i + 1, n);
                vstd::arithmetic::mul::lemma_mul_inequality(i + 1, f, n);
                assert((i + 1) * n == i * n + n) by (nonlinear_arith);
            }
        }
        frames
    }
}

/// Framing law at the pipeline level: with nothing pending, a single-channel
/// delivery of exactly `n` samples completes exactly one frame — the delivery
/// itself — and leaves nothing pending; a delivery of `n + 1` samples (for
/// frames of at least two samples) completes exactly one frame, the first `n`
/// samples, and carries exactly the last sample into the next frame.  Frame
/// count, frame contents and remainder are stated in the terms of `ingest`'s
/// postcondition.
pub proof fn lemma_exact_framing(samples: Seq<u32>, n: int)
    requires
        n >= 1,
    ensures
        samples.len() == n ==> {
            let total = Seq::<u32>::empty() + extracted(samples, 1);
            &&& total.len() as int / n == 1
            &&& total.subrange(0, n) == samples
            &&& total.skip(n) == Seq::<u32>::empty()
        },
        samples.len() == n + 1 && n >= 2 ==> {
            let total = Seq::<u32>::empty() + extracted(samples, 1);
            &&& total.len() as int / n == 1
            &&& total.subrange(0, n) == samples.take(n)
            &&& total.skip(n) == seq![samples[n]]
        },
{
    lemma_channel_selection(samples, 1);
    let total = Seq::<u32>::empty() + extracted(samples, 1);
    assert(total =~= samples);
    if samples.len() == n {
        assert(n == 1 * n + 0) by (nonlinear_arith);
        vstd::arithmetic::div_mod::lemma_fundamental_div_mod_converse(n, n, 1, 0);
        assert(total.subrange(0, n) =~= samples);
        assert(total.skip(n) =~= Seq::<u32>::empty());
    }
    if samples.len() == n + 1 && n >= 2 {
        assert(n + 1 == 1 * n + 1) by (nonlinear_arith);
        vstd::arithmetic::div_mod::lemma_fundamental_div_mod_converse(n + 1, n, 1, 1);
        assert(total.subrange(0, n) =~= samples.take(n));
        assert(total.skip(n) =~= seq![samples[n]]);
    }
}

} // verus!
