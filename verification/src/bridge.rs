//! The frame buffer bridge: the host's mirror of the device's frame buffer.
//!
//! The device holds one 32-bit word per pixel, row by row. The bridge holds an
//! array of the same shape on the host, into which each finished frame is
//! copied. The shape is fixed when the buffer is allocated and never changes
//! afterwards.

use vstd::prelude::*;
use crate::error::PipelineError;

verus! {

/// What a bridge holds: whether its buffer is allocated, the shape of the
/// frame, and the words of the host mirror.
pub struct BridgeView {
    pub allocated: bool,
    pub width: nat,
    pub height: nat,
    pub pixels: Seq<i32>,
}

impl BridgeView {
    /// A bridge that has no buffer yet.
    pub open spec fn unallocated() -> BridgeView {
        BridgeView { allocated: false, width: 0, height: 0, pixels: Seq::empty() }
    }

    /// The mirror has one word per pixel, and an allocated buffer has at
    /// least one pixel.
    pub open spec fn wf(self) -> bool {
        &&& self.pixels.len() == self.width * self.height
        &&& self.allocated ==> self.width > 0 && self.height > 0
        &&& !self.allocated ==> self.width == 0 && self.height == 0
    }

    /// Whether a buffer of `width` by `height` words can be had: there is at
    /// least one pixel, the host can address the mirror, and the device
    /// granted its buffer.
    pub open spec fn can_allocate(width: int, height: int, device_granted: bool) -> bool {
        &&& width > 0
        &&& height > 0
        &&& 4 * (width * height) <= isize::MAX
        &&& device_granted
    }

    /// Whether a request for a buffer of `width` by `height` words succeeds.
    pub open spec fn allocation_succeeds(self, width: int, height: int, device_granted: bool) -> bool {
        if self.allocated {
            self.width == width && self.height == height
        } else {
            Self::can_allocate(width, height, device_granted)
        }
    }

    /// The bridge after a request for a buffer of `width` by `height` words:
    /// a bridge without a buffer gets one, filled with zeros, if it can be
    /// had; a bridge that has a buffer keeps it as it is.
    pub open spec fn after_allocate(self, width: int, height: int, device_granted: bool) -> BridgeView {
        if !self.allocated && Self::can_allocate(width, height, device_granted) {
            BridgeView {
                allocated: true,
                width: width as nat,
                height: height as nat,
                pixels: Seq::new((width * height) as nat, |i: int| 0i32),
            }
        } else {
            self
        }
    }

    /// Whether a transfer from the device can be taken: there is a buffer,
    /// the transfer did not fail, and it brought one word per pixel.
    pub open spec fn readback_succeeds(self, device: Option<Seq<i32>>) -> bool {
        &&& self.allocated
        &&& device is Some
        &&& device->0.len() == self.width * self.height
    }

    /// The bridge after a transfer from the device: the mirror holds the words
    /// that were transferred, or is left as it was where the transfer cannot
    /// be taken.
    pub open spec fn after_readback(self, device: Option<Seq<i32>>) -> BridgeView {
        if self.readback_succeeds(device) {
            BridgeView { pixels: device->0, ..self }
        } else {
            self
        }
    }
}

/// The device's frame buffer as the host sees it.
pub struct FrameBufferBridge {
    allocated: bool,
    width: usize,
    height: usize,
    mirror: Vec<i32>,
}

impl View for FrameBufferBridge {
    type V = BridgeView;

    closed spec fn view(&self) -> BridgeView {
        BridgeView {
            allocated: self.allocated,
            width: self.width as nat,
            height: self.height as nat,
            pixels: self.mirror@,
        }
    }
}

impl FrameBufferBridge {
    #[verifier::type_invariant]
    spec fn inv(self) -> bool {
        self@.wf()
    }

    /// A bridge without a buffer.
    pub fn new() -> (bridge: FrameBufferBridge)
        ensures
            bridge@ == BridgeView::unallocated(),
            bridge@.wf(),
    {
        FrameBufferBridge { allocated: false, width: 0, height: 0, mirror: Vec::new() }
    }

    /// Allocates the buffer, once.
    ///
    /// `device_granted` says whether the compute backend provided a device
    /// buffer of `width * height` words. A bridge without a buffer gets a
    /// host mirror of that shape, filled with zeros, unless the shape has no
    /// pixel, the mirror would be too large to address, or the device did not
    /// grant its buffer. A bridge that has a buffer is left as it is: the
    /// request succeeds if it names the shape that the bridge has, and fails
    /// if it names another.
    pub fn allocate(&mut self, width: usize, height: usize, device_granted: bool) -> (r: Result<
        (),
        PipelineError,
    >)
        ensures
            r is Ok <==> old(self)@.allocation_succeeds(width as int, height as int, device_granted),
            r is Err ==> r == Err::<(), PipelineError>(PipelineError::DeviceAllocation),
            final(self)@ == old(self)@.after_allocate(width as int, height as int, device_granted),
            final(self)@.wf(),
    {
        proof {
            use_type_invariant(&*self);
        }
        if self.allocated {
            if self.width == width && self.height == height {
                return Ok(());
            }
            return Err(PipelineError::DeviceAllocation);
        }
        if width == 0 || height == 0 || !device_granted {
            return Err(PipelineError::DeviceAllocation);
        }
        let words: usize = match width.checked_mul(height) {
            Some(n) => n,
            None => {
                return Err(PipelineError::DeviceAllocation);
            },
        };
        if words > (isize::MAX as usize) / 4 {
            return Err(PipelineError::DeviceAllocation);
        }
        let mirror: Vec<i32> = vec![0i32; words];
        assert(mirror@ =~= Seq::new((width * height) as nat, |i: int| 0i32));
        *self = FrameBufferBridge { allocated: true, width, height, mirror };
        Ok(())
    }

    /// Takes a transfer from the device into the host mirror.
    ///
    /// `device` is what the blocking read of the device buffer brought, or
    /// `None` where the backend reported a fault. The words are copied into
    /// the mirror in place, over the frame that it held. Where there is no
    /// buffer, the read failed, or it did not bring one word per pixel, the
    /// mirror is left as it was.
    pub fn readback(&mut self, device: Option<&[i32]>) -> (r: Result<(), PipelineError>)
        ensures
            r is Ok <==> old(self)@.readback_succeeds(device_words(device)),
            r is Err ==> r == Err::<(), PipelineError>(PipelineError::Transfer),
            final(self)@ == old(self)@.after_readback(device_words(device)),
            final(self)@.wf(),
            final(self)@.pixels.len() == old(self)@.width * old(self)@.height,
    {
        proof {
            use_type_invariant(&*self);
        }
        let data: &[i32] = match device {
            Some(words) => words,
            None => {
                return Err(PipelineError::Transfer);
            },
        };
        if !self.allocated || data.len() != self.mirror.len() {
            return Err(PipelineError::Transfer);
        }
        let n: usize = data.len();
        let mut i: usize = 0;
        while i < n
            invariant
                i <= n,
                n == data@.len(),
                self.mirror@.len() == n,
                self.allocated == old(self).allocated,
                self.width == old(self).width,
                self.height == old(self).height,
                n == self.width * self.height,
                self.allocated,
                self.width > 0 && self.height > 0,
                forall|j: int| 0 <= j < i ==> self.mirror@[j] == data@[j],
            decreases n - i,
        {
            self.mirror[i] = data[i];
            i += 1;
        }
        assert(self.mirror@ =~= data@);
        Ok(())
    }

    /// Whether the buffer is allocated.
    pub fn is_allocated(&self) -> (allocated: bool)
        ensures
            allocated == self@.allocated,
    {
        self.allocated
    }

    /// The number of pixels in a row of the frame; 0 while there is no buffer.
    pub fn width(&self) -> (width: usize)
        ensures
            width == self@.width,
    {
        self.width
    }

    /// The number of rows of the frame; 0 while there is no buffer.
    pub fn height(&self) -> (height: usize)
        ensures
            height == self@.height,
    {
        self.height
    }

    /// The host mirror: the frame that was last transferred, row by row, or
    /// zeros where none was.
    pub fn pixels(&self) -> (pixels: &[i32])
        ensures
            pixels@ == self@.pixels,
            pixels@.len() == self@.width * self@.height,
            self@.wf(),
    {
        proof {
            use_type_invariant(self);
        }
        self.mirror.as_slice()
    }
}

/// The words that a read of the device buffer brought, if it brought any.
pub open spec fn device_words(device: Option<&[i32]>) -> Option<Seq<i32>> {
    match device {
        Some(words) => Some(words@),
        None => None,
    }
}

/// A request for a buffer of the shape that the bridge already has succeeds
/// and changes nothing: not the shape, and not a word of the mirror, whatever
/// has been transferred into it since it was allocated.
pub proof fn lemma_allocate_again(bridge: BridgeView, device_granted: bool)
    requires
        bridge.wf(),
        bridge.allocated,
    ensures
        bridge.allocation_succeeds(bridge.width as int, bridge.height as int, device_granted),
        bridge.after_allocate(bridge.width as int, bridge.height as int, device_granted) == bridge,
{
}

/// Two requests for the same shape, one after the other, leave the bridge as
/// the first of them left it; if the first succeeded, so does the second.
pub proof fn lemma_allocate_idempotent(
    bridge: BridgeView,
    width: int,
    height: int,
    first_granted: bool,
    second_granted: bool,
)
    requires
        bridge.wf(),
        0 <= width,
        0 <= height,
    ensures
        bridge.after_allocate(width, height, first_granted).wf(),
        bridge.allocation_succeeds(width, height, first_granted) ==> ({
            let once = bridge.after_allocate(width, height, first_granted);
            &&& once.allocation_succeeds(width, height, second_granted)
            &&& once.after_allocate(width, height, second_granted) == once
        }),
{
}

/// A transfer never changes the shape of the mirror: it has one word per
/// pixel before and after, whether the transfer is taken or not.
pub proof fn lemma_readback_keeps_shape(bridge: BridgeView, device: Option<Seq<i32>>)
    requires
        bridge.wf(),
    ensures
        bridge.after_readback(device).wf(),
        bridge.after_readback(device).allocated == bridge.allocated,
        bridge.after_readback(device).width == bridge.width,
        bridge.after_readback(device).height == bridge.height,
        bridge.after_readback(device).pixels.len() == bridge.width * bridge.height,
{
}

} // verus!
