//! What the pipeline state object and the shared bind group are made from.
//!
//! The instance stream's layout is written down once, here, and checked
//! against the record's own offsets and size.

use vstd::prelude::*;
use crate::record::{COLOR_OFFSET, POSITION_OFFSET, RECORD_SIZE};

verus! {

/// `wgpu::TextureFormat`, carried through unread.
#[verifier::external_type_specification]
#[verifier::external_body]
pub struct ExTextureFormat(wgpu::TextureFormat);

#[derive(Clone, Copy, Debug, PartialEq, Eq, Structural)]
pub enum VertexFormat {
    Float3,
    Float4,
}

impl VertexFormat {
    /// Size of an attribute of this format in bytes.
    pub open spec fn spec_size(self) -> u64 {
        match self {
            VertexFormat::Float3 => 12,
            VertexFormat::Float4 => 16,
        }
    }

    pub fn size(&self) -> (n: u64)
        ensures
            n == self.spec_size(),
    {
        match self {
            VertexFormat::Float3 => 12,
            VertexFormat::Float4 => 16,
        }
    }
}

#[derive(Clone, Copy, Debug, PartialEq, Eq, Structural)]
pub enum InputStepMode {
    Vertex,
    Instance,
}

#[derive(Clone, Copy, Debug, PartialEq, Eq, Structural)]
pub struct VertexAttribute {
    pub format: VertexFormat,
    pub offset: u64,
    pub shader_location: u32,
}

/// The vertex stream that carries the instance records.
#[derive(Clone, Copy, Debug, PartialEq, Eq, Structural)]
pub struct InstanceLayout {
    pub stride: u64,
    pub step_mode: InputStepMode,
    pub position: VertexAttribute,
    pub color: VertexAttribute,
}

impl InstanceLayout {
    /// Whether the layout reads a record as it is packed: stepped per
    /// instance, the position at the record's position offset, the color
    /// right behind it at the record's color offset, and the stride the
    /// record's size, with no byte between or behind the two.
    pub open spec fn spec_matches_record(self) -> bool {
        &&& self.step_mode == InputStepMode::Instance
        &&& self.position.offset == POSITION_OFFSET
        &&& self.color.offset == COLOR_OFFSET
        &&& self.position.offset + self.position.format.spec_size() == self.color.offset
        &&& self.color.offset + self.color.format.spec_size() == self.stride
        &&& self.stride == RECORD_SIZE
    }

    /// Whether the layout reads a record as it is packed.
    pub fn matches_record(&self) -> (ok: bool)
        ensures
            ok == self.spec_matches_record(),
    {
        self.step_mode == InputStepMode::Instance && self.position.offset == POSITION_OFFSET as u64
            && self.color.offset == COLOR_OFFSET as u64 && self.position.format.size()
            == COLOR_OFFSET as u64 && self.stride == RECORD_SIZE as u64 && self.color.format.size()
            == (RECORD_SIZE - COLOR_OFFSET) as u64
    }
}

/// The layout of the instance stream.
pub open spec fn spec_instance_layout() -> InstanceLayout {
    InstanceLayout {
        stride: 28,
        step_mode: InputStepMode::Instance,
        position: VertexAttribute { format: VertexFormat::Float3, offset: 0, shader_location: 3 },
        color: VertexAttribute { format: VertexFormat::Float4, offset: 12, shader_location: 4 },
    }
}

pub fn instance_layout() -> (layout: InstanceLayout)
    ensures
        layout == spec_instance_layout(),
        layout.spec_matches_record(),
{
    InstanceLayout {
        stride: 28,
        step_mode: InputStepMode::Instance,
        position: VertexAttribute { format: VertexFormat::Float3, offset: 0, shader_location: 3 },
        color: VertexAttribute { format: VertexFormat::Float4, offset: 12, shader_location: 4 },
    }
}

#[derive(Clone, Copy, Debug, PartialEq, Eq, Structural)]
pub enum FrontFace {
    Ccw,
    Cw,
}

#[derive(Clone, Copy, Debug, PartialEq, Eq, Structural)]
pub enum CullMode {
    Off,
    Front,
    Back,
}

#[derive(Clone, Copy, Debug, PartialEq, Eq, Structural)]
pub enum PrimitiveTopology {
    PointList,
    LineList,
    LineStrip,
    TriangleList,
    TriangleStrip,
}

#[derive(Clone, Copy, Debug, PartialEq, Eq, Structural)]
pub enum Blend {
    Replace,
}

#[derive(Clone, Copy, Debug, PartialEq, Eq, Structural)]
pub enum DepthTest {
    Never,
    Less,
    Equal,
    LessEqual,
    Greater,
    NotEqual,
    GreaterEqual,
    Always,
}

#[derive(Clone, Copy, Debug, PartialEq, Eq, Structural)]
pub enum StencilFace {
    Ignore,
}

#[derive(Clone, Copy, Debug, PartialEq, Eq, Structural)]
pub enum IndexFormat {
    Uint16,
    Uint32,
}

/// Everything the pipeline state object is built from, but the compiled
/// shaders and the mesh's own vertex stream, which stands at slot 0.
#[derive(Clone, Copy, Debug)]
pub struct PipelineDescriptor {
    pub front_face: FrontFace,
    pub cull_mode: CullMode,
    pub depth_bias: i32,
    /// Bit pattern of the slope scale.
    pub depth_bias_slope_scale: u32,
    /// Bit pattern of the clamp.
    pub depth_bias_clamp: u32,
    pub primitive_topology: PrimitiveTopology,
    pub color_format: wgpu::TextureFormat,
    pub color_blend: Blend,
    pub alpha_blend: Blend,
    /// All four channels are written.
    pub color_write_all: bool,
    pub depth_format: wgpu::TextureFormat,
    pub depth_write_enabled: bool,
    pub depth_test: DepthTest,
    pub stencil_front: StencilFace,
    pub stencil_back: StencilFace,
    pub stencil_read_mask: u32,
    pub stencil_write_mask: u32,
    pub index_format: IndexFormat,
    /// The stream at slot 1.
    pub instance_stream: InstanceLayout,
    pub sample_count: u32,
    pub sample_mask: u32,
    pub alpha_to_coverage_enabled: bool,
}

/// The fixed state of the instanced forward pass for the given targets:
/// counter-clockwise front faces, back faces culled, no depth bias, triangle
/// lists with 16-bit indices, opaque writes, depth written and tested with
/// less-than, no stencil, every sample enabled.
pub open spec fn spec_pipeline_descriptor(
    color_format: wgpu::TextureFormat,
    depth_format: wgpu::TextureFormat,
    msaa_samples: usize,
) -> PipelineDescriptor {
    PipelineDescriptor {
        front_face: FrontFace::Ccw,
        cull_mode: CullMode::Back,
        depth_bias: 0,
        depth_bias_slope_scale: 0,
        depth_bias_clamp: 0,
        primitive_topology: PrimitiveTopology::TriangleList,
        color_format,
        color_blend: Blend::Replace,
        alpha_blend: Blend::Replace,
        color_write_all: true,
        depth_format,
        depth_write_enabled: true,
        depth_test: DepthTest::Less,
        stencil_front: StencilFace::Ignore,
        stencil_back: StencilFace::Ignore,
        stencil_read_mask: 0,
        stencil_write_mask: 0,
        index_format: IndexFormat::Uint16,
        instance_stream: spec_instance_layout(),
        sample_count: msaa_samples as u32,
        sample_mask: 0xffff_ffff,
        alpha_to_coverage_enabled: false,
    }
}

pub fn pipeline_descriptor(
    color_format: wgpu::TextureFormat,
    depth_format: wgpu::TextureFormat,
    msaa_samples: usize,
) -> (d: PipelineDescriptor)
    ensures
        d == spec_pipeline_descriptor(color_format, depth_format, msaa_samples),
        d.instance_stream.spec_matches_record(),
{
    PipelineDescriptor {
        front_face: FrontFace::Ccw,
        cull_mode: CullMode::Back,
        depth_bias: 0,
        depth_bias_slope_scale: 0,
        depth_bias_clamp: 0,
        primitive_topology: PrimitiveTopology::TriangleList,
        color_format,
        color_blend: Blend::Replace,
        alpha_blend: Blend::Replace,
        color_write_all: true,
        depth_format,
        depth_write_enabled: true,
        depth_test: DepthTest::Less,
        stencil_front: StencilFace::Ignore,
        stencil_back: StencilFace::Ignore,
        stencil_read_mask: 0,
        stencil_write_mask: 0,
        index_format: IndexFormat::Uint16,
        instance_stream: instance_layout(),
        sample_count: #[verifier::truncate] (msaa_samples as u32),
        sample_mask: 0xffff_ffff,
        alpha_to_coverage_enabled: false,
    }
}

/// What a buffer may be used for.
#[derive(Clone, Copy, Debug, PartialEq, Eq, Structural)]
pub struct BufferUsage {
    pub copy_src: bool,
    pub vertex: bool,
}

/// An instance buffer is a source of copies and a vertex stream.
pub open spec fn spec_instance_buffer_usage() -> BufferUsage {
    BufferUsage { copy_src: true, vertex: true }
}

pub fn instance_buffer_usage() -> (usage: BufferUsage)
    ensures
        usage == spec_instance_buffer_usage(),
{
    BufferUsage { copy_src: true, vertex: true }
}

/// The shared uniform buffers that the pass binds.
#[derive(Clone, Copy, Debug, PartialEq, Eq, Structural)]
pub enum SharedUniform {
    /// Frame globals: camera and transforms.
    Forward,
    /// Lights.
    Lights,
}

/// The shared uniform buffer for want of which the pass cannot be set up, if
/// there is one: the frame globals are looked for first, then the lights.
pub open spec fn spec_missing_uniform(forward_present: bool, lights_present: bool) -> Option<
    SharedUniform,
> {
    if !forward_present {
        Some(SharedUniform::Forward)
    } else if !lights_present {
        Some(SharedUniform::Lights)
    } else {
        None
    }
}

/// Which shared uniform buffer is missing, given whether the registry holds
/// each of the two.
pub fn missing_uniform(forward_present: bool, lights_present: bool) -> (missing: Option<
    SharedUniform,
>)
    ensures
        missing == spec_missing_uniform(forward_present, lights_present),
        missing is None <==> forward_present && lights_present,
{
    if !forward_present {
        Some(SharedUniform::Forward)
    } else if !lights_present {
        Some(SharedUniform::Lights)
    } else {
        None
    }
}

/// One uniform buffer at one slot of the bind group.
#[derive(Clone, Copy, Debug, PartialEq, Eq, Structural)]
pub struct UniformBinding {
    pub binding: u32,
    pub source: SharedUniform,
    pub vertex_visible: bool,
    pub fragment_visible: bool,
    pub dynamic: bool,
}

/// The resource binding set of the pass: its two bindings.
#[derive(Clone, Copy, Debug, PartialEq, Eq, Structural)]
pub struct BindGroupDescriptor {
    pub global: UniformBinding,
    pub lights: UniformBinding,
}

/// Frame globals at slot 0 and lights at slot 1, both plain uniform buffers
/// that the vertex and the fragment stage see.
pub open spec fn spec_bind_group_descriptor() -> BindGroupDescriptor {
    BindGroupDescriptor {
        global: UniformBinding {
            binding: 0,
            source: SharedUniform::Forward,
            vertex_visible: true,
            fragment_visible: true,
            dynamic: false,
        },
        lights: UniformBinding {
            binding: 1,
            source: SharedUniform::Lights,
            vertex_visible: true,
            fragment_visible: true,
            dynamic: false,
        },
    }
}

pub fn bind_group_descriptor() -> (d: BindGroupDescriptor)
    ensures
        d == spec_bind_group_descriptor(),
{
    BindGroupDescriptor {
        global: UniformBinding {
            binding: 0,
            source: SharedUniform::Forward,
            vertex_visible: true,
            fragment_visible: true,
            dynamic: false,
        },
        lights: UniformBinding {
            binding: 1,
            source: SharedUniform::Lights,
            vertex_visible: true,
            fragment_visible: true,
            dynamic: false,
        },
    }
}

} // verus!
