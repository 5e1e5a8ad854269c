//! Backend-neutral fixed-function pipeline state: blend, depth/stencil,
//! rasterization, topology and index formats.

use vstd::prelude::*;
use crate::resource::{CompareFunction, TextureFormat};

verus! {

#[derive(Clone, Copy, Debug, PartialEq, Eq, Structural)]
pub enum PrimitiveTopology {
    PointList,
    LineList,
    LineStrip,
    TriangleList,
    TriangleStrip,
}

#[derive(Clone, Copy, Debug, PartialEq, Eq, Structural)]
pub enum FrontFace {
    Ccw,
    Cw,
}

#[derive(Clone, Copy, Debug, PartialEq, Eq, Structural)]
pub enum CullMode {
    NoCull,
    Front,
    Back,
}

#[derive(Clone, Copy, Debug, PartialEq, Eq, Structural)]
pub enum IndexFormat {
    Uint16,
    Uint32,
}

#[derive(Clone, Copy, Debug, PartialEq, Eq, Structural)]
pub enum BlendFactor {
    Zero,
    One,
    SrcColor,
    OneMinusSrcColor,
    SrcAlpha,
    OneMinusSrcAlpha,
    DstColor,
    OneMinusDstColor,
    DstAlpha,
    OneMinusDstAlpha,
}

#[derive(Clone, Copy, Debug, PartialEq, Eq, Structural)]
pub enum BlendOperation {
    Add,
    Subtract,
    ReverseSubtract,
    Min,
    Max,
}

/// Bitmask restricting which color channels a pipeline writes; `COLOR_WRITE_ALL`
/// enables red, green, blue and alpha.
pub const COLOR_WRITE_ALL: u32 = 0xF;

#[derive(Clone, Copy, Debug, PartialEq, Eq, Structural)]
pub struct BlendDescriptor {
    pub src_factor: BlendFactor,
    pub dst_factor: BlendFactor,
    pub operation: BlendOperation,
}

/// The effect of draw calls on one color attachment.
#[derive(Clone, Copy, Debug, PartialEq, Eq, Structural)]
pub struct ColorStateDescriptor {
    pub format: TextureFormat,
    pub color_blend: BlendDescriptor,
    pub alpha_blend: BlendDescriptor,
    pub write_mask: u32,
}

#[derive(Clone, Copy, Debug, PartialEq, Eq, Structural)]
pub enum StencilOperation {
    Keep,
    Zero,
    Replace,
    Invert,
    IncrementClamp,
    DecrementClamp,
    IncrementWrap,
    DecrementWrap,
}

#[derive(Clone, Copy, Debug, PartialEq, Eq, Structural)]
pub struct StencilStateFaceDescriptor {
    pub compare: CompareFunction,
    pub fail_op: StencilOperation,
    pub depth_fail_op: StencilOperation,
    pub pass_op: StencilOperation,
}

impl StencilStateFaceDescriptor {
    /// The face state that leaves the stencil aspect untouched.
    pub fn ignore() -> (r: Self)
        ensures
            r == (StencilStateFaceDescriptor {
                compare: CompareFunction::Always,
                fail_op: StencilOperation::Keep,
                depth_fail_op: StencilOperation::Keep,
                pass_op: StencilOperation::Keep,
            }),
    {
        StencilStateFaceDescriptor {
            compare: CompareFunction::Always,
            fail_op: StencilOperation::Keep,
            depth_fail_op: StencilOperation::Keep,
            pass_op: StencilOperation::Keep,
        }
    }
}

/// The effect of draw calls on the depth and stencil aspects of the target.
#[derive(Clone, Copy, Debug, PartialEq, Eq, Structural)]
pub struct DepthStencilStateDescriptor {
    pub format: TextureFormat,
    pub depth_write_enabled: bool,
    pub depth_compare: CompareFunction,
    pub stencil_front: StencilStateFaceDescriptor,
    pub stencil_back: StencilStateFaceDescriptor,
    pub stencil_read_mask: u32,
    pub stencil_write_mask: u32,
}

/// Rasterizer configuration. The two slope/clamp fields carry IEEE-754 single
/// bit patterns chosen by the embedder; this layer stores them and never
/// interprets them as numbers.
#[derive(Clone, Copy, Debug, PartialEq, Eq, Structural)]
pub struct RasterizationStateDescriptor {
    pub front_face: FrontFace,
    pub cull_mode: CullMode,
    pub depth_bias: i32,
    pub depth_bias_slope_scale_bits: u32,
    pub depth_bias_clamp_bits: u32,
}

} // verus!
