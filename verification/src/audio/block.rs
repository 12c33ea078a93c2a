//! The shape of an audio block: how many channels it has, how many frames it can hold
//! and how many of them the current cycle uses. The samples themselves are kept by the
//! caller, one buffer of `max_frame_count` samples per channel.

use vstd::prelude::*;

verus! {

/// The shape of an audio block. The frames in use never exceed the frames it can hold.
#[derive(Debug, Clone, Copy, PartialEq, Eq, Structural)]
pub struct BlockShape {
    channel_count: usize,
    max_frame_count: usize,
    frame_count: usize,
}

impl BlockShape {
    /// The number of channels.
    pub closed spec fn spec_channel_count(&self) -> usize {
        self.channel_count
    }

    /// The number of frames that the block can hold.
    pub closed spec fn spec_max_frame_count(&self) -> usize {
        self.max_frame_count
    }

    /// The number of frames in use.
    pub closed spec fn spec_frame_count(&self) -> usize {
        self.frame_count
    }

    /// The frames in use fit in the block.
    pub open spec fn wf(&self) -> bool {
        self.spec_frame_count() <= self.spec_max_frame_count()
    }

    /// A block of `channel_count` channels of `max_frame_count` frames, none in use.
    pub fn new(channel_count: usize, max_frame_count: usize) -> (r: BlockShape)
        ensures
            r.wf(),
            r.spec_channel_count() == channel_count,
            r.spec_max_frame_count() == max_frame_count,
            r.spec_frame_count() == 0,
    {
        BlockShape { channel_count, max_frame_count, frame_count: 0 }
    }

    /// A block of the same channels and size, none of its frames in use.
    pub fn mirror(&self) -> (r: BlockShape)
        ensures
            r.wf(),
            r.spec_channel_count() == self.spec_channel_count(),
            r.spec_max_frame_count() == self.spec_max_frame_count(),
            r.spec_frame_count() == 0,
    {
        BlockShape::new(self.channel_count, self.max_frame_count)
    }

    /// Puts `frame_count` frames in use for the next cycle. When they do not fit, no frame
    /// is in use and the result is `false`.
    pub fn prepare(&mut self, frame_count: usize) -> (r: bool)
        ensures
            r == (frame_count <= old(self).spec_max_frame_count()),
            final(self).spec_frame_count() == (if r {
                frame_count
            } else {
                0
            }),
            final(self).spec_channel_count() == old(self).spec_channel_count(),
            final(self).spec_max_frame_count() == old(self).spec_max_frame_count(),
            final(self).wf(),
    {
        if frame_count > self.max_frame_count {
            self.frame_count = 0;
            return false;
        }
        self.frame_count = frame_count;
        true
    }

    /// The number of frames in use.
    pub fn frame_count(&self) -> (r: usize)
        ensures
            r == self.spec_frame_count(),
    {
        self.frame_count
    }

    /// The number of channels.
    pub fn channel_count(&self) -> (r: usize)
        ensures
            r == self.spec_channel_count(),
    {
        self.channel_count
    }

    /// The number of frames that the block can hold.
    pub fn max_frame_count(&self) -> (r: usize)
        ensures
            r == self.spec_max_frame_count(),
    {
        self.max_frame_count
    }

    /// Where sample `channel` of frame `frame` goes in an interleaved buffer.
    pub open spec fn spec_interleaved_index(&self, frame: int, channel: int) -> int {
        frame * self.spec_channel_count() + channel
    }

    /// Where sample `channel` of frame `frame` goes in an interleaved buffer of
    /// `len` samples; the frames in use must fit in it.
    pub fn interleaved_index(&self, frame: usize, channel: usize, len: usize) -> (r: usize)
        requires
            frame < self.spec_frame_count(),
            channel < self.spec_channel_count(),
            self.spec_frame_count() * self.spec_channel_count() <= len,
        ensures
            r == self.spec_interleaved_index(frame as int, channel as int),
            r < len,
    {
        proof {
            let f = frame as int;
            let c = channel as int;
            let n = self.frame_count as int;
            let cc = self.channel_count as int;
            assert(f * cc + c < n * cc) by (nonlinear_arith)
                requires
                    0 <= f < n,
                    0 <= c < cc,
            ;
        }
        frame * self.channel_count + channel
    }
}

/// The interleaved layout puts the samples of a frame side by side, channel after
/// channel, and the frames one after another: the first sample of the first frame is at
/// 0, each channel's sample sits right after the previous channel's, and the first channel
/// of a frame sits right after the last channel of the frame before.
pub proof fn lemma_interleaved_layout(shape: BlockShape, frame: int, channel: int)
    requires
        0 <= frame,
        0 <= channel < shape.spec_channel_count(),
    ensures
        shape.spec_interleaved_index(0, 0) == 0,
        channel + 1 < shape.spec_channel_count() ==> shape.spec_interleaved_index(frame, channel + 1)
            == shape.spec_interleaved_index(frame, channel) + 1,
        channel + 1 == shape.spec_channel_count() ==> shape.spec_interleaved_index(frame + 1, 0)
            == shape.spec_interleaved_index(frame, channel) + 1,
{
    let cc = shape.spec_channel_count() as int;
    assert((frame + 1) * cc == frame * cc + cc) by (nonlinear_arith);
}

} // verus!
