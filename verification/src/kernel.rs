//! The kernel dispatch controller: what is bound to the compute kernel for a
//! frame, and the grid over which it runs.
//!
//! The kernel is supplied from outside and takes, in this order: the frame
//! buffer of 32-bit words, the width of the image, its height, the limit on
//! the number of bounces of a ray, and a buffer of noise of a fixed length.
//! It runs once per pixel, over a grid of `width` by `height` work items.

use vstd::prelude::*;
use crate::error::PipelineError;

verus! {

/// The number of values in the noise buffer that the kernel takes.
pub const NOISE_LEN: usize = 50;

/// The number of arguments that the kernel takes.
pub const KERNEL_ARITY: usize = 5;

/// The configuration of the process: the resolution of the image and the
/// limit on the number of bounces of a ray.
#[derive(Clone, Copy, Debug, PartialEq, Eq, Structural)]
pub struct Settings {
    pub width: usize,
    pub height: usize,
    pub bounces: usize,
}

/// One argument of the kernel.
#[derive(Clone, Copy, Debug, PartialEq, Eq, Structural)]
pub enum KernelArg {
    /// The device's frame buffer, of `len` 32-bit words.
    PixelBuffer { len: usize },
    /// A 32-bit integer.
    Scalar(i32),
    /// The device's buffer of noise, of `len` values.
    NoiseBuffer { len: usize },
}

/// What one invocation of the kernel is enqueued with.
#[derive(Debug)]
pub struct DispatchPlan {
    /// The arguments, in the order of the kernel's signature.
    pub args: Vec<KernelArg>,
    /// The number of work items in a row of the grid.
    pub grid_width: usize,
    /// The number of rows of the grid.
    pub grid_height: usize,
}

/// Whether the arguments match the kernel's signature: the three scalars fit
/// its 32-bit integers, the frame buffer has one word per pixel, and the noise
/// buffer has the length that the kernel reads.
pub open spec fn bindable(settings: Settings, pixel_words: int, noise_len: int) -> bool {
    &&& settings.width <= i32::MAX
    &&& settings.height <= i32::MAX
    &&& settings.bounces <= i32::MAX
    &&& pixel_words == settings.width * settings.height
    &&& noise_len == NOISE_LEN
}

/// Whether the grid has a work item: an empty grid cannot be enqueued.
pub open spec fn dispatchable(settings: Settings) -> bool {
    settings.width > 0 && settings.height > 0
}

/// The arguments of the kernel for these settings, in the order of its
/// signature.
pub open spec fn bound_args(settings: Settings) -> Seq<KernelArg> {
    seq![
        KernelArg::PixelBuffer { len: (settings.width * settings.height) as usize },
        KernelArg::Scalar(settings.width as i32),
        KernelArg::Scalar(settings.height as i32),
        KernelArg::Scalar(settings.bounces as i32),
        KernelArg::NoiseBuffer { len: NOISE_LEN },
    ]
}

/// Plans the invocation of the kernel for one frame.
///
/// `pixel_words` is the length of the device's frame buffer and `noise_len`
/// that of its noise buffer. The plan is made anew for every frame, so the
/// scalars are bound again each time. It fails with `Bind` where an argument
/// does not match the kernel's signature, and with `Dispatch` where the
/// arguments match but the grid is empty.
pub fn plan_dispatch(settings: Settings, pixel_words: usize, noise_len: usize) -> (r: Result<
    DispatchPlan,
    PipelineError,
>)
    ensures
        r is Ok <==> bindable(settings, pixel_words as int, noise_len as int) && dispatchable(settings),
        r is Err ==> (r->Err_0 == PipelineError::Bind <==> !bindable(
            settings,
            pixel_words as int,
            noise_len as int,
        )),
        r is Err ==> (r->Err_0 == PipelineError::Dispatch <==> bindable(
            settings,
            pixel_words as int,
            noise_len as int,
        )),
        r is Ok ==> r->Ok_0.args@ == bound_args(settings),
        r is Ok ==> r->Ok_0.args@.len() == KERNEL_ARITY,
        r is Ok ==> r->Ok_0.grid_width == settings.width && r->Ok_0.grid_height == settings.height,
        r is Ok ==> r->Ok_0.grid_width * r->Ok_0.grid_height == pixel_words,
{
    let limit: usize = 0x7fff_ffff;
    if settings.width > limit || settings.height > limit || settings.bounces > limit {
        return Err(PipelineError::Bind);
    }
    match settings.width.checked_mul(settings.height) {
        Some(words) => {
            if words != pixel_words {
                return Err(PipelineError::Bind);
            }
        },
        None => {
            return Err(PipelineError::Bind);
        },
    }
    if noise_len != NOISE_LEN {
        return Err(PipelineError::Bind);
    }
    if settings.width == 0 || settings.height == 0 {
        return Err(PipelineError::Dispatch);
    }
    let mut args: Vec<KernelArg> = Vec::new();
    args.push(KernelArg::PixelBuffer { len: pixel_words });
    args.push(KernelArg::Scalar(settings.width as i32));
    args.push(KernelArg::Scalar(settings.height as i32));
    args.push(KernelArg::Scalar(settings.bounces as i32));
    args.push(KernelArg::NoiseBuffer { len: noise_len });
    assert(args@ =~= bound_args(settings));
    Ok(DispatchPlan { args, grid_width: settings.width, grid_height: settings.height })
}

} // verus!
