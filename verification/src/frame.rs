//! The frame allocator.
//!
//! A fixed buffer split into equal frames, each checked out at most once at
//! a time. A frame is handed out as a copy of its bytes; handing it back
//! clears the permit and zeroes the frame.

use vstd::prelude::*;
use vstd::slice::{slice_subrange, slice_to_vec};
use crate::errors::FrameAllocatorError;

verus! {

/// The allocator: the backing buffer, the frame geometry, and one permit
/// per frame.
pub struct FrameAllocator {
    pub buffer: Vec<u8>,
    pub frames: usize,
    pub size: usize,
    pub permits: Vec<bool>,
}

/// A checked-out frame: its bytes and which frame it is.
pub struct Frame {
    pub data: Vec<u8>,
    pub index: usize,
}

impl FrameAllocator {
    /// Well-formedness: the buffer holds exactly the frames, with one
    /// permit each.
    pub open spec fn wf(self) -> bool {
        self.buffer@.len() == self.frames * self.size && self.permits@.len() == self.frames
    }

    /// Builds an allocator of `frames` zeroed frames of `size` bytes each;
    /// an odd size is refused.
    pub fn new(frames: usize, size: usize) -> (r: Result<Self, FrameAllocatorError>)
        requires
            frames * size <= usize::MAX,
        ensures
            size % 2 != 0 ==> r == Err::<Self, FrameAllocatorError>(
                FrameAllocatorError::BadFrameSize,
            ),
            size % 2 == 0 ==> (r matches Ok(a) && a.wf() && a.frames == frames && a.size == size
                && (forall|j: int| 0 <= j < a.buffer@.len() ==> a.buffer@[j] == 0) && (forall|j: int|
                0 <= j < frames ==> a.permits@[j] == false)),
    {
        if size % 2 != 0 {
            return Err(FrameAllocatorError::BadFrameSize);
        }
        proof {
            assert(frames * size >= 0) by (nonlinear_arith);
        }
        let total: usize = frames * size;
        let mut buffer: Vec<u8> = Vec::new();
        let mut i: usize = 0;
        while i < total
            invariant
                i <= total,
                buffer@.len() == i,
                forall|j: int| 0 <= j < i ==> buffer@[j] == 0,
            decreases total - i,
        {
            buffer.push(0);
            i = i + 1;
        }
        let mut permits: Vec<bool> = Vec::new();
        let mut i: usize = 0;
        while i < frames
            invariant
                i <= frames,
                permits@.len() == i,
                forall|j: int| 0 <= j < i ==> permits@[j] == false,
            decreases frames - i,
        {
            permits.push(false);
            i = i + 1;
        }
        Ok(Self { buffer, frames, size, permits })
    }

    /// Whether a frame is free to check out.
    pub fn available(&self, index: usize) -> (r: bool)
        requires
            self.wf(),
            index < self.frames,
        ensures
            r == !self.permits@[index as int],
    {
        !self.permits[index]
    }

    /// Checks a frame out: fails past the end or when it is already out;
    /// otherwise marks its permit and hands out its bytes.
    pub fn get_frame(&mut self, index: usize) -> (r: Result<Frame, FrameAllocatorError>)
        requires
            old(self).wf(),
        ensures
            final(self).wf(),
            final(self).frames == old(self).frames,
            final(self).size == old(self).size,
            final(self).buffer == old(self).buffer,
            index >= old(self).frames ==> r == Err::<Frame, FrameAllocatorError>(
                FrameAllocatorError::FrameOutOfBounds,
            ) && final(self).permits == old(self).permits,
            index < old(self).frames && old(self).permits@[index as int] ==> r == Err::<
                Frame,
                FrameAllocatorError,
            >(FrameAllocatorError::FrameInUse) && final(self).permits == old(self).permits,
            index < old(self).frames && !old(self).permits@[index as int] ==> (r matches Ok(f)
                && f.index == index && f.data@ == old(self).buffer@.subrange(
                index * old(self).size,
                index * old(self).size + old(self).size,
            ) && final(self).permits@ == old(self).permits@.update(index as int, true)),
    {
        if index >= self.frames {
            return Err(FrameAllocatorError::FrameOutOfBounds);
        }
        if !self.available(index) {
            return Err(FrameAllocatorError::FrameInUse);
        }
        let total = self.buffer.len();
        proof {
            assert((index + 1) * self.size == index * self.size + self.size) by (nonlinear_arith);
            assert((index + 1) * self.size <= self.frames * self.size) by (nonlinear_arith)
                requires
                    index + 1 <= self.frames,
                    self.size >= 0,
            ;
            assert(index * self.size >= 0) by (nonlinear_arith);
        }
        let start = index * self.size;
        self.permits.set(index, true);
        let data = slice_to_vec(slice_subrange(self.buffer.as_slice(), start, start + self.size));
        Ok(Frame { data, index })
    }

    /// Hands a frame back: clears its permit and zeroes its bytes, so the
    /// next checkout starts clean.
    pub fn release_frame(&mut self, frame: Frame)
        requires
            old(self).wf(),
            frame.index < old(self).frames,
        ensures
            final(self).wf(),
            final(self).frames == old(self).frames,
            final(self).size == old(self).size,
            final(self).permits@ == old(self).permits@.update(frame.index as int, false),
            final(self).buffer@.len() == old(self).buffer@.len(),
            forall|j: int|
                frame.index * old(self).size <= j < frame.index * old(self).size + old(self).size
                    ==> final(self).buffer@[j] == 0,
            forall|j: int|
                0 <= j < old(self).buffer@.len() && !(frame.index * old(self).size <= j
                    < frame.index * old(self).size + old(self).size) ==> final(self).buffer@[j]
                    == old(self).buffer@[j],
    {
        let total = self.buffer.len();
        proof {
            assert((frame.index + 1) * self.size == frame.index * self.size + self.size)
                by (nonlinear_arith);
            assert((frame.index + 1) * self.size <= self.frames * self.size) by (nonlinear_arith)
                requires
                    frame.index + 1 <= self.frames,
                    self.size >= 0,
            ;
            assert(frame.index * self.size >= 0) by (nonlinear_arith);
        }
        let start = frame.index * self.size;
        crate::buf::fill_bytes(&mut self.buffer, start, self.size, 0);
        self.permits.set(frame.index, false);
    }
}

} // verus!
