//! Draw-pipeline descriptors: shader stages plus fixed-function state, and the
//! reflection pass that derives a pipeline's layout from what its shaders
//! declare, reconciles it with externally supplied vertex-buffer layouts, and
//! promotes uniform bindings that an assignment set addresses dynamically.

use vstd::prelude::*;
use crate::assignments::{RenderResourceAssignment, RenderResourceAssignments};
use crate::layout::{
    spec_from_shader_layouts, spec_promote_groups, spec_sync_vertex_buffers, LayoutConflict,
    PipelineLayout, ShaderLayout, SpecPipelineLayout, SpecShaderLayout,
};
use crate::binding::{clone_bindings, BindGroupDescriptor, BindingDescriptor};
use crate::resource::{CompareFunction, TextureFormat};
use crate::shader::{spec_stage_layout, ShaderHandle, ShaderStages, ShaderStore};
use crate::state::{
    BlendDescriptor, BlendFactor, BlendOperation, ColorStateDescriptor, CullMode,
    DepthStencilStateDescriptor, FrontFace, IndexFormat, PrimitiveTopology,
    RasterizationStateDescriptor, StencilStateFaceDescriptor, COLOR_WRITE_ALL,
};
use crate::vertex::{clone_vertex_buffer, SpecVertexBuffer, VertexBufferDescriptor,
    VertexBufferDescriptors};

verus! {

/// How a pipeline's layout came to be: supplied by the caller, or derived
/// from the shaders (absent until reflection has run).
pub enum PipelineLayoutType {
    Manual(PipelineLayout),
    Reflected(Option<PipelineLayout>),
}

/// Mathematical image of a `PipelineLayoutType`.
pub ghost enum SpecPipelineLayoutType {
    Manual(SpecPipelineLayout),
    Reflected(Option<SpecPipelineLayout>),
}

impl View for PipelineLayoutType {
    type V = SpecPipelineLayoutType;

    open spec fn view(&self) -> SpecPipelineLayoutType {
        match self {
            PipelineLayoutType::Manual(l) => SpecPipelineLayoutType::Manual(l@),
            PipelineLayoutType::Reflected(o) => SpecPipelineLayoutType::Reflected(
                match o {
                    Option::Some(l) => Option::Some(l@),
                    Option::None => Option::None,
                },
            ),
        }
    }
}

/// A piece of derived data that is either supplied manually or reflected
/// lazily.
pub enum DescriptorType<T> {
    Manual(T),
    Reflected(Option<T>),
}

/// The layout a `PipelineLayoutType` currently provides: a manual layout
/// always, a reflected slot only once filled.
pub open spec fn spec_current_layout(t: SpecPipelineLayoutType) -> Option<SpecPipelineLayout> {
    match t {
        SpecPipelineLayoutType::Manual(l) => Option::Some(l),
        SpecPipelineLayoutType::Reflected(o) => o,
    }
}

/// Everything a reflection failure can be: an unresolvable stage handle, or
/// two stages conflicting about a binding.
#[derive(Clone, Copy, Debug, PartialEq, Eq, Structural)]
pub enum ReflectError {
    VertexShaderMissing(ShaderHandle),
    FragmentShaderMissing(ShaderHandle),
    Conflict(LayoutConflict),
}

/// A backend-neutral description of one draw pipeline: shader stages, layout
/// slot, and fixed-function state.
pub struct PipelineDescriptor {
    pub name: Option<String>,
    pub layout: PipelineLayoutType,
    pub shader_stages: ShaderStages,
    pub rasterization_state: Option<RasterizationStateDescriptor>,
    /// The primitive topology used to interpret vertices.
    pub primitive_topology: PrimitiveTopology,
    /// The effect of draw calls on the color aspect of the output target.
    pub color_states: Vec<ColorStateDescriptor>,
    /// The effect of draw calls on the depth and stencil aspects, if any.
    pub depth_stencil_state: Option<DepthStencilStateDescriptor>,
    /// The format of any index buffers used with this pipeline.
    pub index_format: IndexFormat,
    /// The number of samples calculated per pixel, for multisampling.
    pub sample_count: u32,
    /// Bitmask restricting the samples of a pixel modified by this pipeline.
    pub sample_mask: u32,
    /// Whether a per-pixel sample mask is derived from the alpha output.
    pub alpha_to_coverage_enabled: bool,
}

/// Mathematical image of a `PipelineDescriptor`.
pub ghost struct SpecPipelineDescriptor {
    pub name: Option<Seq<char>>,
    pub layout: SpecPipelineLayoutType,
    pub shader_stages: ShaderStages,
    pub rasterization_state: Option<RasterizationStateDescriptor>,
    pub primitive_topology: PrimitiveTopology,
    pub color_states: Seq<ColorStateDescriptor>,
    pub depth_stencil_state: Option<DepthStencilStateDescriptor>,
    pub index_format: IndexFormat,
    pub sample_count: u32,
    pub sample_mask: u32,
    pub alpha_to_coverage_enabled: bool,
}

impl View for PipelineDescriptor {
    type V = SpecPipelineDescriptor;

    open spec fn view(&self) -> SpecPipelineDescriptor {
        SpecPipelineDescriptor {
            name: self.name.deep_view(),
            layout: self.layout@,
            shader_stages: self.shader_stages,
            rasterization_state: self.rasterization_state,
            primitive_topology: self.primitive_topology,
            color_states: self.color_states@,
            depth_stencil_state: self.depth_stencil_state,
            index_format: self.index_format,
            sample_count: self.sample_count,
            sample_mask: self.sample_mask,
            alpha_to_coverage_enabled: self.alpha_to_coverage_enabled,
        }
    }
}

/// The layout a successful reflection writes: the merged stage layouts, with
/// vertex buffers synchronised against the overrides when they are supplied,
/// and uniform bindings promoted to dynamic when an assignment set is.
pub open spec fn spec_reflected_layout(
    merged: SpecPipelineLayout,
    overrides: Option<Map<Seq<char>, SpecVertexBuffer>>,
    assignments: Option<Map<Seq<char>, RenderResourceAssignment>>,
) -> SpecPipelineLayout {
    SpecPipelineLayout {
        bind_groups: match assignments {
            Option::Some(m) => spec_promote_groups(merged.bind_groups, m),
            Option::None => merged.bind_groups,
        },
        vertex_buffer_descriptors: match overrides {
            Option::Some(m) => spec_sync_vertex_buffers(merged.vertex_buffer_descriptors, m),
            Option::None => merged.vertex_buffer_descriptors,
        },
    }
}

/// The per-stage layouts a descriptor's shader pair reflects to, vertex stage
/// first, under a store and an inference setting. Nothing when a stage handle
/// does not resolve.
pub open spec fn spec_stage_layouts(
    store: Map<u64, crate::shader::SpecShader>,
    stages: ShaderStages,
    use_naming_convention: bool,
) -> Option<Seq<SpecShaderLayout>> {
    if !store.contains_key(stages.vertex.0) {
        Option::None
    } else {
        let vertex = spec_stage_layout(store[stages.vertex.0], use_naming_convention);
        match stages.fragment {
            Option::None => Option::Some(seq![vertex]),
            Option::Some(f) => if store.contains_key(f.0) {
                Option::Some(seq![vertex, spec_stage_layout(store[f.0], use_naming_convention)])
            } else {
                Option::None
            },
        }
    }
}

impl PipelineDescriptor {
    /// A descriptor with the given shader stages, an empty reflected layout
    /// slot, and no fixed-function state beyond the defaults.
    pub fn new(shader_stages: ShaderStages) -> (r: Self)
        ensures
            r@.name is None,
            r@.layout == SpecPipelineLayoutType::Reflected(Option::<SpecPipelineLayout>::None),
            r@.shader_stages == shader_stages,
            r@.rasterization_state is None,
            r@.primitive_topology == PrimitiveTopology::TriangleList,
            r@.color_states == Seq::<ColorStateDescriptor>::empty(),
            r@.depth_stencil_state is None,
            r@.index_format == IndexFormat::Uint16,
            r@.sample_count == 1u32,
            r@.sample_mask == u32::MAX,
            !r@.alpha_to_coverage_enabled,
    {
        PipelineDescriptor {
            name: None,
            layout: PipelineLayoutType::Reflected(None),
            color_states: Vec::new(),
            depth_stencil_state: None,
            shader_stages,
            rasterization_state: None,
            primitive_topology: PrimitiveTopology::TriangleList,
            index_format: IndexFormat::Uint16,
            sample_count: 1,
            sample_mask: u32::MAX,
            alpha_to_coverage_enabled: false,
        }
    }

    /// The default full configuration: back-face culling, a depth buffer with
    /// a less-than test, and one alpha-blended color target.
    pub fn default_config(shader_stages: ShaderStages) -> (r: Self)
        ensures
            r@.name is None,
            r@.layout == SpecPipelineLayoutType::Reflected(Option::<SpecPipelineLayout>::None),
            r@.shader_stages == shader_stages,
            r@.rasterization_state == Some(
                (RasterizationStateDescriptor {
                    front_face: FrontFace::Ccw,
                    cull_mode: CullMode::Back,
                    depth_bias: 0i32,
                    depth_bias_slope_scale_bits: 0u32,
                    depth_bias_clamp_bits: 0u32,
                }),
            ),
            r@.primitive_topology == PrimitiveTopology::TriangleList,
            r@.color_states.len() == 1,
            r@.color_states[0] == (ColorStateDescriptor {
                format: TextureFormat::Bgra8UnormSrgb,
                color_blend: BlendDescriptor {
                    src_factor: BlendFactor::SrcAlpha,
                    dst_factor: BlendFactor::OneMinusSrcAlpha,
                    operation: BlendOperation::Add,
                },
                alpha_blend: BlendDescriptor {
                    src_factor: BlendFactor::One,
                    dst_factor: BlendFactor::One,
                    operation: BlendOperation::Add,
                },
                write_mask: COLOR_WRITE_ALL,
            }),
            r@.depth_stencil_state == Some(
                (DepthStencilStateDescriptor {
                    format: TextureFormat::Depth32Float,
                    depth_write_enabled: true,
                    depth_compare: CompareFunction::Less,
                    stencil_front: StencilStateFaceDescriptor {
                        compare: CompareFunction::Always,
                        fail_op: crate::state::StencilOperation::Keep,
                        depth_fail_op: crate::state::StencilOperation::Keep,
                        pass_op: crate::state::StencilOperation::Keep,
                    },
                    stencil_back: StencilStateFaceDescriptor {
                        compare: CompareFunction::Always,
                        fail_op: crate::state::StencilOperation::Keep,
                        depth_fail_op: crate::state::StencilOperation::Keep,
                        pass_op: crate::state::StencilOperation::Keep,
                    },
                    stencil_read_mask: 0u32,
                    stencil_write_mask: 0u32,
                }),
            ),
            r@.index_format == IndexFormat::Uint16,
            r@.sample_count == 1u32,
            r@.sample_mask == u32::MAX,
            !r@.alpha_to_coverage_enabled,
    {
        let mut color_states: Vec<ColorStateDescriptor> = Vec::new();
        color_states.push(
            ColorStateDescriptor {
                format: TextureFormat::Bgra8UnormSrgb,
                color_blend: BlendDescriptor {
                    src_factor: BlendFactor::SrcAlpha,
                    dst_factor: BlendFactor::OneMinusSrcAlpha,
                    operation: BlendOperation::Add,
                },
                alpha_blend: BlendDescriptor {
                    src_factor: BlendFactor::One,
                    dst_factor: BlendFactor::One,
                    operation: BlendOperation::Add,
                },
                write_mask: COLOR_WRITE_ALL,
            },
        );
        PipelineDescriptor {
            name: None,
            primitive_topology: PrimitiveTopology::TriangleList,
            layout: PipelineLayoutType::Reflected(None),
            index_format: IndexFormat::Uint16,
            sample_count: 1,
            sample_mask: u32::MAX,
            alpha_to_coverage_enabled: false,
            rasterization_state: Some(
                RasterizationStateDescriptor {
                    front_face: FrontFace::Ccw,
                    cull_mode: CullMode::Back,
                    depth_bias: 0,
                    depth_bias_slope_scale_bits: 0,
                    depth_bias_clamp_bits: 0,
                },
            ),
            depth_stencil_state: Some(
                DepthStencilStateDescriptor {
                    format: TextureFormat::Depth32Float,
                    depth_write_enabled: true,
                    depth_compare: CompareFunction::Less,
                    stencil_front: StencilStateFaceDescriptor::ignore(),
                    stencil_back: StencilStateFaceDescriptor::ignore(),
                    stencil_read_mask: 0,
                    stencil_write_mask: 0,
                },
            ),
            color_states,
            shader_stages,
        }
    }

    /// The layout this pipeline currently provides, if any: a manual layout
    /// always, a reflected one only once reflection has filled the slot. A
    /// pipeline cannot be realized while this is absent.
    pub fn get_layout(&self) -> (r: Option<&PipelineLayout>)
        ensures
            match r {
                Some(l) => spec_current_layout(self@.layout) == Some(l@),
                None => spec_current_layout(self@.layout) is None,
            },
    {
        match self.layout {
            PipelineLayoutType::Reflected(ref layout) => layout.as_ref(),
            PipelineLayoutType::Manual(ref layout) => Some(layout),
        }
    }

    /// Mutable access to the layout this pipeline currently provides.
    pub fn get_layout_mut(&mut self) -> (r: Option<&mut PipelineLayout>)
        ensures
            old(self)@.layout matches SpecPipelineLayoutType::Manual(_)
                ==> r is Some,
            old(self)@.layout matches SpecPipelineLayoutType::Reflected(o) ==> (r is Some <==> o
                is Some),
            match r {
                Option::Some(l) => {
                    &&& spec_current_layout(old(self)@.layout) == Some(l@)
                    &&& spec_current_layout(final(self)@.layout) == Some(final(l)@)
                    &&& final(self)@ == (SpecPipelineDescriptor {
                        layout: final(self)@.layout,
                        ..old(self)@
                    })
                },
                Option::None => *final(self) == *old(self),
            },
    {
        match self.layout {
            PipelineLayoutType::Reflected(ref mut layout) => layout.as_mut(),
            PipelineLayoutType::Manual(ref mut layout) => Some(layout),
        }
    }

    /// Reflects this pipeline's layout from its shaders: resolves each stage
    /// in the store, merges the per-stage layouts, synchronises vertex
    /// buffers against `vertex_buffer_descriptors` when supplied, promotes
    /// dynamically assigned uniforms when `render_resource_assignments` is
    /// supplied, and writes the result into the reflected slot. Fails, and
    /// leaves the descriptor unchanged, exactly when the vertex stage (or a
    /// named fragment stage) does not resolve or the stages conflict.
    pub fn reflect_layout(
        &mut self,
        shaders: &ShaderStore,
        use_naming_convention: bool,
        vertex_buffer_descriptors: Option<&VertexBufferDescriptors>,
        render_resource_assignments: Option<&RenderResourceAssignments>,
    ) -> (r: Result<(), ReflectError>)
        ensures
            r is Ok <==> spec_stage_layouts(
                shaders@,
                old(self)@.shader_stages,
                use_naming_convention,
            ) is Some && spec_from_shader_layouts(
                spec_stage_layouts(
                    shaders@,
                    old(self)@.shader_stages,
                    use_naming_convention,
                )->Some_0,
            ) is Some,
            match r {
                Result::Ok(()) => {
                    &&& spec_stage_layouts(
                        shaders@,
                        old(self)@.shader_stages,
                        use_naming_convention,
                    ) is Some
                    &&& {
                        let ls = spec_stage_layouts(
                            shaders@,
                            old(self)@.shader_stages,
                            use_naming_convention,
                        )->Some_0;
                        &&& spec_from_shader_layouts(ls) is Some
                        &&& final(self)@ == (SpecPipelineDescriptor {
                            layout: SpecPipelineLayoutType::Reflected(
                                Some(
                                    spec_reflected_layout(
                                        spec_from_shader_layouts(ls)->Some_0,
                                        match vertex_buffer_descriptors {
                                            Option::Some(v) => Option::Some(v@),
                                            Option::None => Option::None,
                                        },
                                        match render_resource_assignments {
                                            Option::Some(a) => Option::Some(a@),
                                            Option::None => Option::None,
                                        },
                                    ),
                                ),
                            ),
                            ..old(self)@
                        })
                    }
                },
                Result::Err(ReflectError::VertexShaderMissing(h)) => {
                    &&& h == old(self)@.shader_stages.vertex
                    &&& !shaders@.contains_key(h.0)
                    &&& final(self)@ == old(self)@
                },
                Result::Err(ReflectError::FragmentShaderMissing(h)) => {
                    &&& old(self)@.shader_stages.fragment == Some(h)
                    &&& shaders@.contains_key(old(self)@.shader_stages.vertex.0)
                    &&& !shaders@.contains_key(h.0)
                    &&& final(self)@ == old(self)@
                },
                Result::Err(ReflectError::Conflict(_)) => {
                    &&& spec_stage_layouts(
                        shaders@,
                        old(self)@.shader_stages,
                        use_naming_convention,
                    ) is Some
                    &&& spec_from_shader_layouts(
                        spec_stage_layouts(
                            shaders@,
                            old(self)@.shader_stages,
                            use_naming_convention,
                        )->Some_0,
                    ) is None
                    &&& final(self)@ == old(self)@
                },
            },
    {
        let vertex_shader = match shaders.get(self.shader_stages.vertex) {
            Option::Some(s) => s,
            Option::None => {
                return Err(ReflectError::VertexShaderMissing(self.shader_stages.vertex));
            },
        };
        let mut layouts: Vec<ShaderLayout> = Vec::new();
        layouts.push(clone_shader_layout(vertex_shader.reflected_layout(use_naming_convention)));
        match self.shader_stages.fragment {
            Option::Some(fragment_handle) => {
                match shaders.get(fragment_handle) {
                    Option::Some(s) => {
                        layouts.push(
                            clone_shader_layout(s.reflected_layout(use_naming_convention)),
                        );
                    },
                    Option::None => {
                        return Err(ReflectError::FragmentShaderMissing(fragment_handle));
                    },
                }
            },
            Option::None => {},
        }
        let ghost ls = spec_stage_layouts(
            shaders@,
            self.shader_stages,
            use_naming_convention,
        )->Some_0;
        proof {
            assert(Seq::new(layouts@.len(), |i: int| layouts@[i]@) =~= ls);
        }
        let mut layout = match PipelineLayout::from_shader_layouts(&layouts) {
            Result::Ok(l) => l,
            Result::Err(c) => {
                return Err(ReflectError::Conflict(c));
            },
        };
        match vertex_buffer_descriptors {
            Option::Some(overrides) => {
                layout.sync_vertex_buffer_descriptors(overrides);
            },
            Option::None => {},
        }
        match render_resource_assignments {
            Option::Some(assignments) => {
                layout.promote_dynamic_bindings(assignments);
            },
            Option::None => {},
        }
        self.layout = PipelineLayoutType::Reflected(Some(layout));
        Ok(())
    }
}

/// Copies a stage layout; the copy has the same view.
fn clone_shader_layout(l: &ShaderLayout) -> (r: ShaderLayout)
    ensures
        r@ == l@,
{
    let mut bind_groups: Vec<BindGroupDescriptor> = Vec::new();
    let mut i: usize = 0;
    while i < l.bind_groups.len()
        invariant
            0 <= i <= l.bind_groups@.len(),
            bind_groups@.len() == i,
            forall|j: int| 0 <= j < i ==> bind_groups@[j]@ == l.bind_groups@[j]@,
        decreases l.bind_groups@.len() - i,
    {
        let g = &l.bind_groups[i];
        bind_groups.push(BindGroupDescriptor { index: g.index, bindings: clone_bindings(&g.bindings) });
        i += 1;
    }
    let mut vertex_buffer_descriptors: Vec<VertexBufferDescriptor> = Vec::new();
    let mut k: usize = 0;
    while k < l.vertex_buffer_descriptors.len()
        invariant
            0 <= k <= l.vertex_buffer_descriptors@.len(),
            vertex_buffer_descriptors@.len() == k,
            forall|j: int| 0 <= j < k ==> vertex_buffer_descriptors@[j]@
                == l.vertex_buffer_descriptors@[j]@,
        decreases l.vertex_buffer_descriptors@.len() - k,
    {
        vertex_buffer_descriptors.push(clone_vertex_buffer(&l.vertex_buffer_descriptors[k]));
        k += 1;
    }
    let r = ShaderLayout { bind_groups, vertex_buffer_descriptors };
    proof {
        assert(r@.bind_groups =~= l@.bind_groups);
        assert(r@.vertex_buffer_descriptors =~= l@.vertex_buffer_descriptors);
    }
    r
}

/// Reflection is deterministic: under one store, one shader pair, one
/// inference setting and one set of overrides and assignments, two successful
/// reflections derive structurally identical layouts.
pub proof fn lemma_reflection_deterministic(
    ls: Seq<SpecShaderLayout>,
    overrides: Option<Map<Seq<char>, SpecVertexBuffer>>,
    assignments: Option<Map<Seq<char>, RenderResourceAssignment>>,
    merged1: SpecPipelineLayout,
    merged2: SpecPipelineLayout,
)
    requires
        spec_from_shader_layouts(ls) == Some(merged1),
        spec_from_shader_layouts(ls) == Some(merged2),
    ensures
        spec_reflected_layout(merged1, overrides, assignments) == spec_reflected_layout(
            merged2,
            overrides,
            assignments,
        ),
{
}


/// The draw pipeline a user-interface pass uses: the default configuration
/// except that culling is disabled, so rectangles render whichever way they
/// wind. The shader stages arrive already compiled and registered.
pub fn build_ui_pipeline(shader_stages: ShaderStages) -> (r: PipelineDescriptor)
    ensures
        r@.name is None,
        r@.layout == SpecPipelineLayoutType::Reflected(Option::<SpecPipelineLayout>::None),
        r@.shader_stages == shader_stages,
        r@.rasterization_state == Some(
            (RasterizationStateDescriptor {
                front_face: FrontFace::Ccw,
                cull_mode: CullMode::NoCull,
                depth_bias: 0i32,
                depth_bias_slope_scale_bits: 0u32,
                depth_bias_clamp_bits: 0u32,
            }),
        ),
        r@.primitive_topology == PrimitiveTopology::TriangleList,
        r@.color_states.len() == 1,
        r@.color_states[0] == (ColorStateDescriptor {
            format: TextureFormat::Bgra8UnormSrgb,
            color_blend: BlendDescriptor {
                src_factor: BlendFactor::SrcAlpha,
                dst_factor: BlendFactor::OneMinusSrcAlpha,
                operation: BlendOperation::Add,
            },
            alpha_blend: BlendDescriptor {
                src_factor: BlendFactor::One,
                dst_factor: BlendFactor::One,
                operation: BlendOperation::Add,
            },
            write_mask: COLOR_WRITE_ALL,
        }),
        r@.depth_stencil_state == Some(
            (DepthStencilStateDescriptor {
                format: TextureFormat::Depth32Float,
                depth_write_enabled: true,
                depth_compare: CompareFunction::Less,
                stencil_front: StencilStateFaceDescriptor {
                    compare: CompareFunction::Always,
                    fail_op: crate::state::StencilOperation::Keep,
                    depth_fail_op: crate::state::StencilOperation::Keep,
                    pass_op: crate::state::StencilOperation::Keep,
                },
                stencil_back: StencilStateFaceDescriptor {
                    compare: CompareFunction::Always,
                    fail_op: crate::state::StencilOperation::Keep,
                    depth_fail_op: crate::state::StencilOperation::Keep,
                    pass_op: crate::state::StencilOperation::Keep,
                },
                stencil_read_mask: 0u32,
                stencil_write_mask: 0u32,
            }),
        ),
        r@.index_format == IndexFormat::Uint16,
        r@.sample_count == 1u32,
        r@.sample_mask == u32::MAX,
        !r@.alpha_to_coverage_enabled,
{
    let mut r = PipelineDescriptor::default_config(shader_stages);
    r.rasterization_state = Some(
        RasterizationStateDescriptor {
            front_face: FrontFace::Ccw,
            cull_mode: CullMode::NoCull,
            depth_bias: 0,
            depth_bias_slope_scale_bits: 0,
            depth_bias_clamp_bits: 0,
        },
    );
    r
}

} // verus!
