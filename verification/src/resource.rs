//! Opaque handles for GPU-side objects and the static metadata recorded for
//! each live resource.

use vstd::prelude::*;

verus! {

/// An opaque, comparable, hashable identifier for one GPU-side object
/// (buffer, texture, sampler, or transient swap-chain image). Handles are
/// allocated monotonically by the resource context and never reused.
#[derive(Clone, Copy, Debug, PartialEq, Eq, Structural, Hash, PartialOrd, Ord)]
pub struct RenderResource(pub u64);

/// The copy-source bit of the backend's buffer-usage bitmask: a buffer whose
/// contents GPU copy commands may read, as a staging buffer's must be.
pub const BUFFER_USAGE_COPY_SRC: u32 = 4;

/// Static shape of a buffer: its byte size and a usage bitmask.
#[derive(Clone, Copy, Debug, PartialEq, Eq, Structural)]
pub struct BufferInfo {
    pub size: usize,
    pub buffer_usage: u32,
}

/// Texel extents of a texture.
#[derive(Clone, Copy, Debug, PartialEq, Eq, Structural)]
pub struct Extent3d {
    pub width: u32,
    pub height: u32,
    pub depth: u32,
}

/// A texel origin within a texture.
#[derive(Clone, Copy, Debug, PartialEq, Eq, Structural)]
pub struct Origin3d {
    pub x: u32,
    pub y: u32,
    pub z: u32,
}

#[derive(Clone, Copy, Debug, PartialEq, Eq, Structural)]
pub enum TextureDimension {
    D1,
    D2,
    D3,
}

/// The texel formats this layer needs to name; the backend owns the full set.
#[derive(Clone, Copy, Debug, PartialEq, Eq, Structural)]
pub enum TextureFormat {
    Rgba8UnormSrgb,
    Bgra8UnormSrgb,
    Depth32Float,
    Rgba16Float,
}

/// Static shape of a texture.
#[derive(Clone, Copy, Debug, PartialEq, Eq, Structural)]
pub struct TextureDescriptor {
    pub size: Extent3d,
    pub array_layer_count: u32,
    pub mip_level_count: u32,
    pub sample_count: u32,
    pub dimension: TextureDimension,
    pub format: TextureFormat,
    pub usage: u32,
}

#[derive(Clone, Copy, Debug, PartialEq, Eq, Structural)]
pub enum AddressMode {
    ClampToEdge,
    Repeat,
    MirrorRepeat,
}

#[derive(Clone, Copy, Debug, PartialEq, Eq, Structural)]
pub enum FilterMode {
    Nearest,
    Linear,
}

/// Comparison used by depth tests and comparison samplers.
#[derive(Clone, Copy, Debug, PartialEq, Eq, Structural)]
pub enum CompareFunction {
    Never,
    Less,
    Equal,
    LessEqual,
    Greater,
    NotEqual,
    GreaterEqual,
    Always,
}

/// Static shape of a sampler.
#[derive(Clone, Copy, Debug, PartialEq, Eq, Structural)]
pub struct SamplerDescriptor {
    pub address_mode_u: AddressMode,
    pub address_mode_v: AddressMode,
    pub address_mode_w: AddressMode,
    pub mag_filter: FilterMode,
    pub min_filter: FilterMode,
    pub mipmap_filter: FilterMode,
    pub compare_function: Option<CompareFunction>,
}

/// Tagged description of a live resource's static shape. One instance exists
/// per live handle, created with the resource and removed with it.
#[derive(Clone, Copy, Debug, PartialEq, Eq, Structural)]
pub enum ResourceInfo {
    Buffer(BufferInfo),
    Texture(TextureDescriptor),
    Sampler,
}

} // verus!
