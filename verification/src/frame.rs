//! Frame buffers: the fixed-length blocks of samples that one
//! processing cycle produces.

use vstd::prelude::*;

verus! {

/// One processing cycle's worth of audio: an ordered sequence of
/// samples, each stored as the 32-bit IEEE-754 bit pattern of the
/// sample value. A buffer is a contiguous slice of the time series and
/// is never reordered or split once captured.
pub struct FrameBuffer {
    samples: Vec<u32>,
}

impl FrameBuffer {
    /// The buffer as the mathematical sequence of its sample bit patterns.
    pub closed spec fn view(&self) -> Seq<u32> {
        self.samples@
    }

    /// Wraps an owned vector of sample bit patterns as a frame buffer.
    pub fn from_samples(samples: Vec<u32>) -> (r: FrameBuffer)
        ensures
            r@ == samples@,
    {
        FrameBuffer { samples }
    }

    /// Captures a copy of a port buffer for the handoff path.
    pub fn capture(input: &Vec<u32>) -> (r: FrameBuffer)
        ensures
            r@ == input@,
    {
        let mut samples: Vec<u32> = Vec::new();
        let mut i: usize = 0;
        while i < input.len()
            invariant
                i <= input.len(),
                samples@ == input@.subrange(0, i as int),
            decreases input.len() - i,
        {
            samples.push(input[i]);
            i = i + 1;
        }
        assert(samples@ == input@);
        FrameBuffer { samples }
    }

    /// Number of samples in the buffer.
    pub fn len(&self) -> (r: usize)
        ensures
            r == self@.len(),
    {
        self.samples.len()
    }

    /// The sample bit pattern at position `i`.
    pub fn sample(&self, i: usize) -> (r: u32)
        requires
            i < self@.len(),
        ensures
            r == self@[i as int],
    {
        self.samples[i]
    }

    /// Copies the samples out as an owned vector, in order.
    pub fn copy_samples(&self) -> (r: Vec<u32>)
        ensures
            r@ == self@,
    {
        let mut samples: Vec<u32> = Vec::new();
        let mut i: usize = 0;
        while i < self.len()
            invariant
                i <= self@.len(),
                samples@ == self@.subrange(0, i as int),
            decreases self@.len() - i,
        {
            samples.push(self.sample(i));
            i = i + 1;
        }
        assert(samples@ == self@);
        samples
    }

    /// Gives the samples back as an owned vector, in order.
    pub fn into_samples(self) -> (r: Vec<u32>)
        ensures
            r@ == self@,
    {
        self.samples
    }
}

/// The tee: copies all samples of `input` into `output` unchanged, and
/// returns a freshly captured frame buffer holding the same samples for
/// the handoff path. The output port content equals the input port
/// content sample for sample.
pub fn tee_forward(input: &Vec<u32>, output: &mut Vec<u32>) -> (r: FrameBuffer)
    requires
        old(output).len() == input.len(),
    ensures
        final(output)@ == input@,
        r@ == input@,
{
    let mut i: usize = 0;
    while i < input.len()
        invariant
            i <= input.len(),
            output.len() == input.len(),
            output@.subrange(0, i as int) == input@.subrange(0, i as int),
        decreases input.len() - i,
    {
        output.set(i, input[i]);
        assert(output@.subrange(0, i + 1 as int) == input@.subrange(0, i + 1 as int));
        i = i + 1;
    }
    assert(output@ == input@) by {
        assert(output@.subrange(0, input@.len() as int) == output@);
        assert(input@.subrange(0, input@.len() as int) == input@);
    }
    FrameBuffer::capture(input)
}

} // verus!
