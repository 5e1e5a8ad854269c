//! Reflection: merging per-stage layouts, vertex-buffer synchronisation, and
//! dynamic promotion of uniform bindings.

use render_core::assignments::RenderResourceAssignment;
use render_core::assignments::RenderResourceAssignments;
use render_core::binding::{BindGroupDescriptor, BindType, BindingDescriptor};
use render_core::layout::{PipelineLayout, ShaderLayout};
use render_core::pipeline::{PipelineDescriptor, ReflectError};
use render_core::resource::{RenderResource, TextureDimension};
use render_core::shader::{Shader, ShaderHandle, ShaderStage, ShaderStages, ShaderStore};
use render_core::state::CullMode;
use render_core::vertex::{
    InputStepMode, VertexAttributeDescriptor, VertexBufferDescriptor, VertexBufferDescriptors,
    VertexFormat,
};

fn binding(index: u32, name: &str, bind_type: BindType) -> BindingDescriptor {
    BindingDescriptor { index, name: String::from(name), bind_type }
}

fn group(index: u32, bindings: Vec<BindingDescriptor>) -> BindGroupDescriptor {
    BindGroupDescriptor { index, bindings }
}

fn stage_layout(bind_groups: Vec<BindGroupDescriptor>) -> ShaderLayout {
    ShaderLayout { bind_groups, vertex_buffer_descriptors: Vec::new() }
}

fn shader(stage: ShaderStage, bind_groups: Vec<BindGroupDescriptor>) -> Shader {
    let layout = stage_layout(bind_groups.clone());
    Shader { stage, layout, layout_with_conventions: stage_layout(bind_groups) }
}

fn uniform() -> BindType {
    BindType::Uniform { dynamic: false }
}

fn texture() -> BindType {
    BindType::SampledTexture { multisampled: false, dimension: TextureDimension::D2 }
}

/// A store holding the example pair: a vertex shader declaring the uniform
/// "Transform" at binding 0 of group 0, and a fragment shader declaring the
/// sampled texture "Albedo" at binding 1 of group 0.
fn example_store() -> (ShaderStore, ShaderStages) {
    let mut store = ShaderStore::new();
    let vertex = store.add(shader(
        ShaderStage::Vertex,
        vec![group(0, vec![binding(0, "Transform", uniform())])],
    ));
    let fragment = store.add(shader(
        ShaderStage::Fragment,
        vec![group(0, vec![binding(1, "Albedo", texture())])],
    ));
    (store, ShaderStages { vertex, fragment: Some(fragment) })
}

fn reflected(
    store: &ShaderStore,
    stages: ShaderStages,
    assignments: Option<&RenderResourceAssignments>,
) -> PipelineLayout {
    let mut descriptor = PipelineDescriptor::new(stages);
    descriptor.reflect_layout(store, false, None, assignments).unwrap();
    let layout = descriptor.get_layout().unwrap();
    PipelineLayout {
        bind_groups: layout.bind_groups.clone(),
        vertex_buffer_descriptors: layout.vertex_buffer_descriptors.clone(),
    }
}

#[test]
fn reflection_is_deterministic() {
    let (store, stages) = example_store();
    let first = reflected(&store, stages, None);
    let second = reflected(&store, stages, None);
    assert_eq!(first, second);
}

#[test]
fn example_scenario_merges_into_one_group() {
    let (store, stages) = example_store();
    let layout = reflected(&store, stages, None);
    assert_eq!(layout.bind_groups.len(), 1);
    let merged = &layout.bind_groups[0];
    assert_eq!(merged.index, 0);
    assert_eq!(merged.bindings.len(), 2);
    assert_eq!(merged.bindings[0], binding(0, "Transform", uniform()));
    assert_eq!(merged.bindings[1], binding(1, "Albedo", texture()));
}

#[test]
fn example_scenario_promotes_only_the_dynamic_uniform() {
    let (store, stages) = example_store();
    let mut assignments = RenderResourceAssignments::new();
    assignments.set(
        String::from("Transform"),
        RenderResourceAssignment::Buffer {
            resource: RenderResource(7),
            range_start: 0,
            range_end: 256,
            dynamic_index: Some(0),
        },
    );
    let layout = reflected(&store, stages, Some(&assignments));
    let merged = &layout.bind_groups[0];
    assert_eq!(merged.bindings[0].bind_type, BindType::Uniform { dynamic: true });
    assert_eq!(merged.bindings[1], binding(1, "Albedo", texture()));
}

#[test]
fn bindings_without_dynamic_assignment_stay_static() {
    let (store, stages) = example_store();
    let mut assignments = RenderResourceAssignments::new();
    assignments.set(
        String::from("Transform"),
        RenderResourceAssignment::Buffer {
            resource: RenderResource(7),
            range_start: 0,
            range_end: 256,
            dynamic_index: None,
        },
    );
    let layout = reflected(&store, stages, Some(&assignments));
    let merged = &layout.bind_groups[0];
    assert_eq!(merged.bindings[0].bind_type, BindType::Uniform { dynamic: false });
}

#[test]
fn shared_binding_across_stages_is_one_logical_binding() {
    let mut store = ShaderStore::new();
    let vertex = store.add(shader(
        ShaderStage::Vertex,
        vec![group(0, vec![binding(0, "Transform", uniform())])],
    ));
    let fragment = store.add(shader(
        ShaderStage::Fragment,
        vec![group(0, vec![binding(0, "Transform", uniform())])],
    ));
    let stages = ShaderStages { vertex, fragment: Some(fragment) };
    let layout = reflected(&store, stages, None);
    assert_eq!(layout.bind_groups.len(), 1);
    assert_eq!(layout.bind_groups[0].bindings.len(), 1);
}

#[test]
fn conflicting_stage_bindings_are_reported() {
    let mut store = ShaderStore::new();
    let vertex = store.add(shader(
        ShaderStage::Vertex,
        vec![group(0, vec![binding(0, "Transform", uniform())])],
    ));
    let fragment = store.add(shader(
        ShaderStage::Fragment,
        vec![group(0, vec![binding(0, "Albedo", texture())])],
    ));
    let stages = ShaderStages { vertex, fragment: Some(fragment) };
    let mut descriptor = PipelineDescriptor::new(stages);
    let result = descriptor.reflect_layout(&store, false, None, None);
    match result {
        Err(ReflectError::Conflict(c)) => {
            assert_eq!(c.group_index, 0);
            assert_eq!(c.binding_index, 0);
        },
        other => panic!("expected a layout conflict, got {:?}", other.is_ok()),
    }
    assert!(descriptor.get_layout().is_none());
}

#[test]
fn missing_vertex_shader_is_fatal() {
    let store = ShaderStore::new();
    let stages = ShaderStages { vertex: ShaderHandle(42), fragment: None };
    let mut descriptor = PipelineDescriptor::new(stages);
    let result = descriptor.reflect_layout(&store, false, None, None);
    assert_eq!(result, Err(ReflectError::VertexShaderMissing(ShaderHandle(42))));
}

#[test]
fn missing_fragment_shader_is_fatal() {
    let mut store = ShaderStore::new();
    let vertex = store.add(shader(ShaderStage::Vertex, vec![]));
    let stages = ShaderStages { vertex, fragment: Some(ShaderHandle(99)) };
    let mut descriptor = PipelineDescriptor::new(stages);
    let result = descriptor.reflect_layout(&store, false, None, None);
    assert_eq!(result, Err(ReflectError::FragmentShaderMissing(ShaderHandle(99))));
}

#[test]
fn vertex_buffer_overrides_are_authoritative() {
    let mut store = ShaderStore::new();
    let reflected_buffer = VertexBufferDescriptor {
        name: String::from("Vertex"),
        stride: 12,
        step_mode: InputStepMode::Vertex,
        attributes: vec![VertexAttributeDescriptor {
            name: String::from("Vertex_Position"),
            offset: 0,
            format: VertexFormat::Float3,
            shader_location: 0,
        }],
    };
    let vertex_layout = ShaderLayout {
        bind_groups: Vec::new(),
        vertex_buffer_descriptors: vec![reflected_buffer],
    };
    let vertex = store.add(Shader {
        stage: ShaderStage::Vertex,
        layout: ShaderLayout {
            bind_groups: Vec::new(),
            vertex_buffer_descriptors: vec![VertexBufferDescriptor {
                name: String::from("Vertex"),
                stride: 12,
                step_mode: InputStepMode::Vertex,
                attributes: Vec::new(),
            }],
        },
        layout_with_conventions: vertex_layout,
    });
    let overriding = VertexBufferDescriptor {
        name: String::from("Vertex"),
        stride: 32,
        step_mode: InputStepMode::Instance,
        attributes: Vec::new(),
    };
    let mut overrides = VertexBufferDescriptors::new();
    overrides.set(overriding.clone());
    let stages = ShaderStages { vertex, fragment: None };
    let mut descriptor = PipelineDescriptor::new(stages);
    descriptor.reflect_layout(&store, false, Some(&overrides), None).unwrap();
    let layout = descriptor.get_layout().unwrap();
    assert_eq!(layout.vertex_buffer_descriptors.len(), 1);
    assert_eq!(layout.vertex_buffer_descriptors[0], overriding);
}

#[test]
fn naming_convention_flag_selects_the_inferred_layout() {
    let mut store = ShaderStore::new();
    let plain = stage_layout(vec![group(0, vec![binding(0, "A", uniform())])]);
    let inferred = stage_layout(vec![group(0, vec![binding(0, "B", uniform())])]);
    let vertex = store.add(Shader {
        stage: ShaderStage::Vertex,
        layout: plain,
        layout_with_conventions: inferred,
    });
    let stages = ShaderStages { vertex, fragment: None };
    let mut descriptor = PipelineDescriptor::new(stages);
    descriptor.reflect_layout(&store, true, None, None).unwrap();
    let layout = descriptor.get_layout().unwrap();
    assert_eq!(layout.bind_groups[0].bindings[0].name, "B");
}

#[test]
fn ui_pipeline_disables_culling() {
    let (_, stages) = example_store();
    let ui = render_core::pipeline::build_ui_pipeline(stages);
    let raster = ui.rasterization_state.unwrap();
    assert_eq!(raster.cull_mode, CullMode::NoCull);
    let default = PipelineDescriptor::default_config(stages);
    assert_eq!(default.rasterization_state.unwrap().cull_mode, CullMode::Back);
    assert_eq!(default.sample_count, 1);
    assert_eq!(default.sample_mask, u32::MAX);
    assert_eq!(default.color_states.len(), 1);
    assert!(!default.alpha_to_coverage_enabled);
    assert!(default.get_layout().is_none());
}
