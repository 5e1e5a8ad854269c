//! The render-resource context: registry bookkeeping, recorded copy commands,
//! swap-chain turnover, and the bind-group and pipeline caches.

use render_core::assignments::{RenderResourceAssignment, RenderResourceAssignments};
use render_core::binding::{BindGroupDescriptor, BindType, BindingDescriptor};
use render_core::context::{
    Command, CommandEncoder, PipelineHandle, RenderResourceContext, RenderResourceError, Window,
    WindowId,
};
use render_core::layout::ShaderLayout;
use render_core::pipeline::PipelineDescriptor;
use render_core::resource::{
    BufferInfo, Extent3d, Origin3d, RenderResource, ResourceInfo, TextureDescriptor,
    TextureDimension, TextureFormat,
};
use render_core::shader::{Shader, ShaderStage, ShaderStages, ShaderStore};

fn texture_descriptor(width: u32) -> TextureDescriptor {
    TextureDescriptor {
        size: Extent3d { width, height: 4, depth: 1 },
        array_layer_count: 1,
        mip_level_count: 1,
        sample_count: 1,
        dimension: TextureDimension::D2,
        format: TextureFormat::Rgba8UnormSrgb,
        usage: 0,
    }
}

fn uniform_binding(index: u32, name: &str) -> BindingDescriptor {
    BindingDescriptor {
        index,
        name: String::from(name),
        bind_type: BindType::Uniform { dynamic: false },
    }
}

fn buffer_assignment(resource: RenderResource, start: u64, end: u64) -> RenderResourceAssignment {
    RenderResourceAssignment::Buffer {
        resource,
        range_start: start,
        range_end: end,
        dynamic_index: None,
    }
}

fn empty_shader(stage: ShaderStage) -> Shader {
    Shader {
        stage,
        layout: ShaderLayout { bind_groups: Vec::new(), vertex_buffer_descriptors: Vec::new() },
        layout_with_conventions: ShaderLayout {
            bind_groups: Vec::new(),
            vertex_buffer_descriptors: Vec::new(),
        },
    }
}

#[test]
fn handles_are_allocated_monotonically() {
    let mut context = RenderResourceContext::new();
    let a = context.create_buffer(BufferInfo { size: 16, buffer_usage: 0 });
    let b = context.create_buffer(BufferInfo { size: 32, buffer_usage: 0 });
    let c = context.create_sampler(&sampler());
    assert_ne!(a, b);
    assert_ne!(b, c);
    assert_eq!(a, RenderResource(0));
    assert_eq!(b, RenderResource(1));
    assert_eq!(c, RenderResource(2));
}

fn sampler() -> render_core::resource::SamplerDescriptor {
    render_core::resource::SamplerDescriptor {
        address_mode_u: render_core::resource::AddressMode::ClampToEdge,
        address_mode_v: render_core::resource::AddressMode::ClampToEdge,
        address_mode_w: render_core::resource::AddressMode::ClampToEdge,
        mag_filter: render_core::resource::FilterMode::Linear,
        min_filter: render_core::resource::FilterMode::Nearest,
        mipmap_filter: render_core::resource::FilterMode::Nearest,
        compare_function: None,
    }
}

#[test]
fn resource_info_follows_creation_and_removal() {
    let mut context = RenderResourceContext::new();
    let info = BufferInfo { size: 64, buffer_usage: 3 };
    let buffer = context.create_buffer(info);
    assert_eq!(context.get_resource_info(buffer), Some(ResourceInfo::Buffer(info)));
    context.remove_buffer(buffer);
    assert_eq!(context.get_resource_info(buffer), None);
    assert_eq!(context.get_resource_info(RenderResource(1234)), None);
}

#[test]
fn create_buffer_with_data_records_the_data_length() {
    let mut context = RenderResourceContext::new();
    let buffer = context.create_buffer_with_data(
        BufferInfo { size: 0, buffer_usage: 9 },
        &[1, 2, 3, 4, 5],
    );
    assert_eq!(
        context.get_resource_info(buffer),
        Some(ResourceInfo::Buffer(BufferInfo { size: 5, buffer_usage: 9 })),
    );
}

#[test]
fn copy_commands_are_recorded_for_live_handles_only() {
    let mut context = RenderResourceContext::new();
    let mut encoder = CommandEncoder::new();
    let source = context.create_buffer(BufferInfo { size: 16, buffer_usage: 0 });
    let destination = context.create_buffer(BufferInfo { size: 16, buffer_usage: 0 });
    let stranger = RenderResource(77);
    assert_eq!(
        context.copy_buffer_to_buffer(&mut encoder, stranger, 0, destination, 0, 16),
        Err(RenderResourceError::BufferNotFound(stranger)),
    );
    assert_eq!(encoder.commands.len(), 0);
    context.copy_buffer_to_buffer(&mut encoder, source, 0, destination, 8, 8).unwrap();
    assert_eq!(
        encoder.commands[0],
        Command::CopyBufferToBuffer {
            source_buffer: source,
            source_offset: 0,
            destination_buffer: destination,
            destination_offset: 8,
            size: 8,
        },
    );
    let texture = context.create_texture(texture_descriptor(8));
    context
        .copy_buffer_to_texture(
            &mut encoder,
            source,
            0,
            32,
            texture,
            Origin3d { x: 0, y: 0, z: 0 },
            0,
            0,
            Extent3d { width: 8, height: 4, depth: 1 },
        )
        .unwrap();
    assert_eq!(encoder.commands.len(), 2);
}

#[test]
fn texture_with_data_stages_the_bytes_through_a_buffer() {
    let mut context = RenderResourceContext::new();
    let mut encoder = CommandEncoder::new();
    let descriptor = texture_descriptor(8);
    let texture = context.create_texture_with_data(&mut encoder, descriptor, &[7u8; 128]);
    assert_eq!(context.get_resource_info(texture), Some(ResourceInfo::Texture(descriptor)));
    let staging = RenderResource(texture.0 + 1);
    assert_eq!(
        context.get_resource_info(staging),
        Some(ResourceInfo::Buffer(BufferInfo {
            size: 128,
            buffer_usage: render_core::resource::BUFFER_USAGE_COPY_SRC,
        })),
    );
    assert_eq!(encoder.commands.len(), 1);
    assert_eq!(
        encoder.commands[0],
        Command::CopyBufferToTexture {
            source_buffer: staging,
            source_offset: 0,
            source_bytes_per_row: 32,
            destination_texture: texture,
            destination_origin: Origin3d { x: 0, y: 0, z: 0 },
            destination_mip_level: 0,
            destination_array_layer: 0,
            size: descriptor.size,
        },
    );
}

#[test]
fn bind_group_cache_creates_once_per_identity() {
    let mut context = RenderResourceContext::new();
    let buffer = context.create_buffer(BufferInfo { size: 256, buffer_usage: 0 });
    let descriptor = BindGroupDescriptor {
        index: 0,
        bindings: vec![uniform_binding(0, "Transform")],
    };
    let mut assignments = RenderResourceAssignments::new();
    assignments.set(String::from("Transform"), buffer_assignment(buffer, 0, 256));
    let first = context.create_bind_group(&descriptor, &assignments).unwrap();
    let second = context.create_bind_group(&descriptor, &assignments).unwrap();
    assert_eq!(first, second);
    assert_eq!(context.bind_groups.len(), 1);
    assert_eq!(context.bind_group_layouts.len(), 1);
}

#[test]
fn changed_assignment_changes_the_identity() {
    let mut context = RenderResourceContext::new();
    let buffer = context.create_buffer(BufferInfo { size: 256, buffer_usage: 0 });
    let descriptor = BindGroupDescriptor {
        index: 0,
        bindings: vec![uniform_binding(0, "Transform")],
    };
    let mut assignments = RenderResourceAssignments::new();
    assignments.set(String::from("Transform"), buffer_assignment(buffer, 0, 128));
    let first = context.create_bind_group(&descriptor, &assignments).unwrap();
    assignments.set(String::from("Transform"), buffer_assignment(buffer, 128, 256));
    let second = context.create_bind_group(&descriptor, &assignments).unwrap();
    assert_ne!(first, second);
    assert_eq!(context.bind_groups.len(), 2);
    assert_eq!(context.bind_group_layouts.len(), 1);
}

#[test]
fn assignment_insertion_order_does_not_matter() {
    let buffer_a = buffer_assignment(RenderResource(1), 0, 64);
    let buffer_b = buffer_assignment(RenderResource(2), 64, 128);
    let descriptor = BindGroupDescriptor {
        index: 0,
        bindings: vec![uniform_binding(0, "A"), uniform_binding(1, "B")],
    };
    let mut forward = RenderResourceAssignments::new();
    forward.set(String::from("A"), buffer_a);
    forward.set(String::from("B"), buffer_b);
    let mut backward = RenderResourceAssignments::new();
    backward.set(String::from("B"), buffer_b);
    backward.set(String::from("A"), buffer_a);
    assert_eq!(
        forward.render_resource_set_id(&descriptor),
        backward.render_resource_set_id(&descriptor),
    );
}

#[test]
fn missing_binding_is_a_fatal_incomplete_outcome() {
    let mut context = RenderResourceContext::new();
    let descriptor = BindGroupDescriptor { index: 0, bindings: vec![uniform_binding(3, "X")] };
    let assignments = RenderResourceAssignments::new();
    assert_eq!(
        context.create_bind_group(&descriptor, &assignments),
        Err(RenderResourceError::MissingBinding { binding_index: 3 }),
    );
    assert_eq!(context.bind_groups.len(), 0);
}

#[test]
fn unknown_resource_in_an_assignment_is_reported() {
    let mut context = RenderResourceContext::new();
    let descriptor = BindGroupDescriptor { index: 0, bindings: vec![uniform_binding(0, "X")] };
    let mut assignments = RenderResourceAssignments::new();
    assignments.set(String::from("X"), buffer_assignment(RenderResource(9), 0, 16));
    assert_eq!(
        context.create_bind_group(&descriptor, &assignments),
        Err(RenderResourceError::BufferNotFound(RenderResource(9))),
    );
}

#[test]
fn pipeline_is_built_exactly_once_per_handle() {
    let mut context = RenderResourceContext::new();
    let mut store = ShaderStore::new();
    let vertex = store.add(empty_shader(ShaderStage::Vertex));
    let fragment = store.add(empty_shader(ShaderStage::Fragment));
    let stages = ShaderStages { vertex, fragment: Some(fragment) };
    let mut descriptor = PipelineDescriptor::default_config(stages);
    descriptor.reflect_layout(&store, false, None, None).unwrap();
    let handle = PipelineHandle(11);
    context.create_render_pipeline(handle, &descriptor, &store).unwrap();
    context.create_render_pipeline(handle, &descriptor, &store).unwrap();
    assert_eq!(context.render_pipelines.len(), 1);
    assert_eq!(context.shader_modules.len(), 2);
}

#[test]
fn pipeline_creation_requires_a_reflected_layout() {
    let mut context = RenderResourceContext::new();
    let mut store = ShaderStore::new();
    let vertex = store.add(empty_shader(ShaderStage::Vertex));
    let descriptor = PipelineDescriptor::new(ShaderStages { vertex, fragment: None });
    assert_eq!(
        context.create_render_pipeline(PipelineHandle(0), &descriptor, &store),
        Err(RenderResourceError::PipelineLayoutMissing),
    );
}

#[test]
fn pipeline_creation_requires_resolvable_shaders() {
    let mut context = RenderResourceContext::new();
    let mut store = ShaderStore::new();
    let vertex = store.add(empty_shader(ShaderStage::Vertex));
    let mut descriptor = PipelineDescriptor::new(ShaderStages { vertex, fragment: None });
    descriptor.reflect_layout(&store, false, None, None).unwrap();
    let empty_store = ShaderStore::new();
    assert_eq!(
        context.create_render_pipeline(PipelineHandle(0), &descriptor, &empty_store),
        Err(RenderResourceError::ShaderNotFound(vertex)),
    );
}

#[test]
fn shader_modules_are_memoized() {
    let mut context = RenderResourceContext::new();
    let mut store = ShaderStore::new();
    let vertex = store.add(empty_shader(ShaderStage::Vertex));
    context.create_shader_module(vertex, &store).unwrap();
    context.create_shader_module(vertex, &store).unwrap();
    assert_eq!(context.shader_modules.len(), 1);
    assert_eq!(
        context.create_shader_module(render_core::shader::ShaderHandle(50), &store),
        Err(RenderResourceError::ShaderNotFound(render_core::shader::ShaderHandle(50))),
    );
}

#[test]
fn swap_chain_turnover_accumulates_and_clears() {
    let mut context = RenderResourceContext::new();
    let window = Window { id: WindowId(1), width: 800, height: 600, vsync: true };
    assert_eq!(
        context.create_swap_chain(&window),
        Err(RenderResourceError::SurfaceNotFound(WindowId(1))),
    );
    context.set_window_surface(window.id);
    context.create_swap_chain(&window).unwrap();
    assert_eq!(
        context.next_swap_chain_texture(WindowId(2)),
        Err(RenderResourceError::SwapChainNotFound(WindowId(2))),
    );
    let first = context.next_swap_chain_texture(window.id).unwrap();
    let second = context.next_swap_chain_texture(window.id).unwrap();
    let third = context.next_swap_chain_texture(window.id).unwrap();
    assert_ne!(first, second);
    assert_ne!(second, third);
    assert_eq!(context.swap_chain_texture_count(), 3);
    context.drop_swap_chain_texture(second);
    assert_eq!(context.swap_chain_texture_count(), 2);
    context.drop_all_swap_chain_textures();
    assert_eq!(context.swap_chain_texture_count(), 0);
}

#[test]
fn asset_resources_map_slots_to_handles() {
    let mut context = RenderResourceContext::new();
    let texture = context.create_texture(texture_descriptor(4));
    context.set_asset_resource_untyped(900, texture, 0);
    assert_eq!(context.get_asset_resource_untyped(900, 0), Some(texture));
    assert_eq!(context.get_asset_resource_untyped(900, 1), None);
    let other = context.create_texture(texture_descriptor(4));
    context.set_asset_resource_untyped(900, other, 0);
    assert_eq!(context.get_asset_resource_untyped(900, 0), Some(other));
}

#[test]
fn removal_of_unknown_handles_is_a_no_op() {
    let mut context = RenderResourceContext::new();
    let buffer = context.create_buffer(BufferInfo { size: 8, buffer_usage: 0 });
    context.remove_texture(RenderResource(999));
    context.remove_sampler(RenderResource(999));
    assert_eq!(context.get_resource_info(buffer), Some(ResourceInfo::Buffer(BufferInfo {
        size: 8,
        buffer_usage: 0,
    })));
}

#[test]
fn mapped_buffers_register_like_plain_buffers() {
    let mut context = RenderResourceContext::new();
    let info = BufferInfo { size: 128, buffer_usage: 2 };
    let buffer = context.create_buffer_mapped(info);
    assert_eq!(context.get_resource_info(buffer), Some(ResourceInfo::Buffer(info)));
}

#[test]
fn manual_layouts_are_available_without_reflection() {
    let mut store = ShaderStore::new();
    let vertex = store.add(empty_shader(ShaderStage::Vertex));
    let mut descriptor = PipelineDescriptor::new(ShaderStages { vertex, fragment: None });
    descriptor.layout = render_core::pipeline::PipelineLayoutType::Manual(
        render_core::layout::PipelineLayout {
            bind_groups: vec![BindGroupDescriptor {
                index: 0,
                bindings: vec![uniform_binding(0, "Transform")],
            }],
            vertex_buffer_descriptors: Vec::new(),
        },
    );
    assert_eq!(descriptor.get_layout().unwrap().bind_groups.len(), 1);
    let layout = descriptor.get_layout_mut().unwrap();
    layout.bind_groups.clear();
    assert_eq!(descriptor.get_layout().unwrap().bind_groups.len(), 0);
}

#[test]
fn three_assignments_resolve_one_identity_in_any_order() {
    let a = buffer_assignment(RenderResource(1), 0, 64);
    let b = buffer_assignment(RenderResource(2), 64, 128);
    let c = RenderResourceAssignment::Texture(RenderResource(3));
    let descriptor = BindGroupDescriptor {
        index: 0,
        bindings: vec![
            uniform_binding(0, "A"),
            uniform_binding(1, "B"),
            uniform_binding(2, "C"),
        ],
    };
    let orders: [[(&str, RenderResourceAssignment); 3]; 3] = [
        [("A", a), ("B", b), ("C", c)],
        [("C", c), ("A", a), ("B", b)],
        [("B", b), ("C", c), ("A", a)],
    ];
    let mut ids = Vec::new();
    for order in orders.iter() {
        let mut assignments = RenderResourceAssignments::new();
        for (name, value) in order.iter() {
            assignments.set(String::from(*name), *value);
        }
        ids.push(assignments.render_resource_set_id(&descriptor).unwrap());
    }
    assert_eq!(ids[0], ids[1]);
    assert_eq!(ids[1], ids[2]);
}
