use forward_instanced::batch::InstancedEntity;
use forward_instanced::layout::{
    bind_group_descriptor, instance_buffer_usage, instance_layout, missing_uniform, pipeline_descriptor, Blend, CullMode, DepthTest,
    FrontFace, IndexFormat, InputStepMode, InstanceLayout, PrimitiveTopology, SharedUniform,
    StencilFace, VertexAttribute, VertexFormat,
};
use forward_instanced::pipeline::{
    push_batch_commands, DrawCommand, ForwardInstancedPipeline, VertexSource,
};
use forward_instanced::record::{LocalToWorld, Material};
use std::collections::HashMap;

fn entity(mesh_id: usize, x: f32) -> InstancedEntity {
    let mut cols = [0u32; 16];
    cols[0] = 1.0f32.to_bits();
    cols[5] = 1.0f32.to_bits();
    cols[10] = 1.0f32.to_bits();
    cols[15] = 1.0f32.to_bits();
    cols[12] = x.to_bits();
    InstancedEntity {
        material: Material::new([1.0f32.to_bits(); 4]),
        transform: LocalToWorld::new(cols),
        mesh_id,
    }
}

fn ready() -> ForwardInstancedPipeline {
    let mut p = ForwardInstancedPipeline::new(wgpu::TextureFormat::Depth32Float, 4);
    p.initialize(wgpu::TextureFormat::Bgra8UnormSrgb, true, true, &Vec::new());
    p
}

fn draw_of(batch: usize, mesh_id: usize, index_count: u32, instance_count: u32) -> Vec<DrawCommand> {
    vec![
        DrawCommand::SetupMeshBuffers { mesh_id },
        DrawCommand::SetIndexBuffer { mesh_id, offset: 0 },
        DrawCommand::SetVertexBuffer { slot: 0, source: VertexSource::Mesh { mesh_id }, offset: 0 },
        DrawCommand::SetVertexBuffer { slot: 1, source: VertexSource::Instances { batch }, offset: 0 },
        DrawCommand::DrawIndexed { index_count, base_vertex: 0, instance_count },
    ]
}

#[test]
fn new_pass_holds_nothing_yet() {
    let p = ForwardInstancedPipeline::new(wgpu::TextureFormat::Depth32Float, 4);
    assert!(p.pipeline.is_none());
    assert!(p.local_bind_group.is_none());
    assert!(p.instance_buffer_infos.is_none());
    assert_eq!(p.depth_format, wgpu::TextureFormat::Depth32Float);
    assert_eq!(p.msaa_samples, 4);
}

#[test]
fn instance_layout_is_the_records_layout() {
    let layout = instance_layout();
    assert_eq!(layout.stride, 28);
    assert_eq!(layout.step_mode, InputStepMode::Instance);
    assert_eq!(
        layout.position,
        VertexAttribute { format: VertexFormat::Float3, offset: 0, shader_location: 3 }
    );
    assert_eq!(
        layout.color,
        VertexAttribute { format: VertexFormat::Float4, offset: 12, shader_location: 4 }
    );
    assert!(layout.matches_record());
    assert_eq!(VertexFormat::Float3.size(), 12);
    assert_eq!(VertexFormat::Float4.size(), 16);
}

#[test]
fn layout_that_drifts_does_not_match() {
    let good = instance_layout();
    assert!(!InstanceLayout { stride: 32, ..good }.matches_record());
    assert!(!InstanceLayout { step_mode: InputStepMode::Vertex, ..good }.matches_record());
    assert!(!InstanceLayout { color: VertexAttribute { offset: 16, ..good.color }, ..good }.matches_record());
    assert!(!InstanceLayout {
        position: VertexAttribute { format: VertexFormat::Float4, ..good.position },
        ..good
    }
    .matches_record());
    assert!(!InstanceLayout {
        position: VertexAttribute { offset: u64::MAX, ..good.position },
        ..good
    }
    .matches_record());
    assert!(InstanceLayout { color: VertexAttribute { shader_location: 9, ..good.color }, ..good }
        .matches_record());
}

#[test]
fn pipeline_descriptor_holds_the_fixed_state() {
    let d = pipeline_descriptor(
        wgpu::TextureFormat::Bgra8UnormSrgb,
        wgpu::TextureFormat::Depth32Float,
        4,
    );
    assert_eq!(d.front_face, FrontFace::Ccw);
    assert_eq!(d.cull_mode, CullMode::Back);
    assert_eq!(d.depth_bias, 0);
    assert_eq!(f32::from_bits(d.depth_bias_slope_scale), 0.0);
    assert_eq!(f32::from_bits(d.depth_bias_clamp), 0.0);
    assert_eq!(d.primitive_topology, PrimitiveTopology::TriangleList);
    assert_eq!(d.color_format, wgpu::TextureFormat::Bgra8UnormSrgb);
    assert_eq!(d.color_blend, Blend::Replace);
    assert_eq!(d.alpha_blend, Blend::Replace);
    assert!(d.color_write_all);
    assert_eq!(d.depth_format, wgpu::TextureFormat::Depth32Float);
    assert!(d.depth_write_enabled);
    assert_eq!(d.depth_test, DepthTest::Less);
    assert_eq!(d.stencil_front, StencilFace::Ignore);
    assert_eq!(d.stencil_back, StencilFace::Ignore);
    assert_eq!(d.stencil_read_mask, 0);
    assert_eq!(d.stencil_write_mask, 0);
    assert_eq!(d.index_format, IndexFormat::Uint16);
    assert_eq!(d.instance_stream, instance_layout());
    assert_eq!(d.sample_count, 4);
    assert_eq!(d.sample_mask, u32::MAX);
    assert!(!d.alpha_to_coverage_enabled);
}

#[test]
fn bind_group_binds_globals_at_0_and_lights_at_1() {
    let d = bind_group_descriptor();
    assert_eq!(d.global.binding, 0);
    assert_eq!(d.global.source, SharedUniform::Forward);
    assert_eq!(d.lights.binding, 1);
    assert_eq!(d.lights.source, SharedUniform::Lights);
    for b in [d.global, d.lights] {
        assert!(b.vertex_visible);
        assert!(b.fragment_visible);
        assert!(!b.dynamic);
    }
}

#[test]
fn instance_buffers_are_copy_sources_and_vertex_streams() {
    let usage = instance_buffer_usage();
    assert!(usage.copy_src);
    assert!(usage.vertex);
}

#[test]
fn the_first_missing_uniform_is_named() {
    assert_eq!(missing_uniform(true, true), None);
    assert_eq!(missing_uniform(false, true), Some(SharedUniform::Forward));
    assert_eq!(missing_uniform(true, false), Some(SharedUniform::Lights));
    assert_eq!(missing_uniform(false, false), Some(SharedUniform::Forward));
}

#[test]
fn initialize_builds_descriptors_and_first_batches() {
    let mut p = ForwardInstancedPipeline::new(wgpu::TextureFormat::Depth32Float, 8);
    p.initialize(wgpu::TextureFormat::Bgra8UnormSrgb, true, true, &vec![entity(7, 1.0), entity(7, 2.0)]);
    assert_eq!(p.local_bind_group, Some(bind_group_descriptor()));
    let d = p.get_pipeline();
    assert_eq!(d.sample_count, 8);
    assert_eq!(d.depth_format, wgpu::TextureFormat::Depth32Float);
    assert_eq!(d.color_format, wgpu::TextureFormat::Bgra8UnormSrgb);
    assert!(d.instance_stream.matches_record());
    let infos = p.instance_buffer_infos.as_ref().unwrap();
    assert_eq!(infos.len(), 1);
    assert_eq!(infos[0].instance_count, 2);
    assert_eq!(p.msaa_samples, 8);
}

#[test]
fn three_on_mesh_7_and_two_on_mesh_9_give_two_draws() {
    let es = vec![entity(7, 0.0), entity(7, 1.0), entity(9, 2.0), entity(7, 3.0), entity(9, 4.0)];
    let mut meshes = HashMap::new();
    meshes.insert(7usize, 36usize);
    meshes.insert(9usize, 6usize);
    let mut p = ready();
    let commands = p.render(&es, &meshes);
    let mut expected = vec![DrawCommand::SetBindGroup { index: 0 }];
    expected.extend(draw_of(0, 7, 36, 3));
    expected.extend(draw_of(1, 9, 6, 2));
    assert_eq!(commands, expected);
    let draws = commands.iter().filter(|c| matches!(c, DrawCommand::DrawIndexed { .. })).count();
    assert_eq!(draws, 2);
    let infos = p.instance_buffer_infos.as_ref().unwrap();
    assert_eq!(infos.len(), 2);
    assert_eq!((infos[0].mesh_id, infos[0].instance_count), (7, 3));
    assert_eq!((infos[1].mesh_id, infos[1].instance_count), (9, 2));
}

#[test]
fn no_entities_give_no_draws_and_no_buffers() {
    let mut meshes = HashMap::new();
    meshes.insert(7usize, 36usize);
    let mut p = ready();
    let commands = p.render(&Vec::new(), &meshes);
    assert_eq!(commands, vec![DrawCommand::SetBindGroup { index: 0 }]);
    assert_eq!(p.instance_buffer_infos.as_ref().unwrap().len(), 0);
}

#[test]
fn rendering_twice_gives_the_same_content() {
    let es = vec![entity(7, 0.0), entity(9, 1.0), entity(7, 2.0)];
    let mut meshes = HashMap::new();
    meshes.insert(7usize, 36usize);
    meshes.insert(9usize, 6usize);
    let mut p = ready();
    let first_commands = p.render(&es, &meshes);
    let first: Vec<(usize, usize, Vec<u8>)> = p
        .instance_buffer_infos
        .as_ref()
        .unwrap()
        .iter()
        .map(|i| (i.mesh_id, i.instance_count, i.data.clone()))
        .collect();
    let second_commands = p.render(&es, &meshes);
    let second: Vec<(usize, usize, Vec<u8>)> = p
        .instance_buffer_infos
        .as_ref()
        .unwrap()
        .iter()
        .map(|i| (i.mesh_id, i.instance_count, i.data.clone()))
        .collect();
    assert_eq!(first_commands, second_commands);
    assert_eq!(first, second);
}

#[test]
fn a_frame_forgets_the_frame_before() {
    let mut meshes = HashMap::new();
    meshes.insert(7usize, 36usize);
    let mut p = ready();
    p.render(&vec![entity(7, 0.0), entity(7, 1.0)], &meshes);
    let commands = p.render(&vec![entity(7, 0.0)], &meshes);
    let mut expected = vec![DrawCommand::SetBindGroup { index: 0 }];
    expected.extend(draw_of(0, 7, 36, 1));
    assert_eq!(commands, expected);
    let infos = p.instance_buffer_infos.as_ref().unwrap();
    assert_eq!(infos.len(), 1);
    assert_eq!(infos[0].data.len(), 28);
}

#[test]
fn a_batch_whose_mesh_is_unknown_is_passed_over() {
    let es = vec![entity(7, 0.0), entity(8, 1.0), entity(9, 2.0)];
    let mut meshes = HashMap::new();
    meshes.insert(7usize, 36usize);
    meshes.insert(9usize, 6usize);
    let mut p = ready();
    let commands = p.render(&es, &meshes);
    let mut expected = vec![DrawCommand::SetBindGroup { index: 0 }];
    expected.extend(draw_of(0, 7, 36, 1));
    expected.extend(draw_of(2, 9, 6, 1));
    assert_eq!(commands, expected);
    assert_eq!(p.instance_buffer_infos.as_ref().unwrap().len(), 3);
}

#[test]
fn render_keeps_the_descriptors() {
    let mut p = ready();
    let pipeline_before = *p.get_pipeline();
    p.render(&vec![entity(7, 0.0)], &HashMap::new());
    assert_eq!(p.get_pipeline().sample_count, pipeline_before.sample_count);
    assert_eq!(p.local_bind_group, Some(bind_group_descriptor()));
    assert_eq!(p.msaa_samples, 4);
    assert_eq!(p.depth_format, wgpu::TextureFormat::Depth32Float);
}

#[test]
fn resize_changes_nothing() {
    let mut p = ready();
    p.render(&vec![entity(7, 0.0)], &HashMap::new());
    p.resize();
    assert_eq!(p.msaa_samples, 4);
    assert_eq!(p.local_bind_group, Some(bind_group_descriptor()));
    assert_eq!(p.instance_buffer_infos.as_ref().unwrap().len(), 1);
    assert!(p.pipeline.is_some());
}

#[test]
fn draw_counts_keep_their_low_32_bits() {
    let mut commands = Vec::new();
    push_batch_commands(&mut commands, 2, 5, 3, 12);
    assert_eq!(commands, draw_of(2, 5, 12, 3));
    if usize::BITS == 64 {
        let mut wide = Vec::new();
        push_batch_commands(&mut wide, 0, 5, (1usize << 32) + 3, (1usize << 32) + 12);
        assert_eq!(wide, draw_of(0, 5, 12, 3));
    }
}
