//! The graphics pipeline and its push constants.

use vstd::prelude::*;

use crate::vulkan::{
    Extent2D, BLEND_FACTOR_ONE, BLEND_FACTOR_ZERO, BLEND_OP_ADD, COLOR_COMPONENT_RGBA,
    COMPARE_OP_LESS, CULL_MODE_BACK, FLOAT_ONE, FLOAT_ZERO, FRONT_FACE_COUNTER_CLOCKWISE,
    LOGIC_OP_COPY, POLYGON_MODE_FILL, SHADER_STAGE_FRAGMENT, SHADER_STAGE_VERTEX,
    TOPOLOGY_TRIANGLE_LIST,
};

verus! {

/// The bytes of a transform, a four by four matrix of 32-bit numbers.
pub const TRANSFORM_SIZE: u32 = 64;

/// The bytes of a texture index.
pub const TEXTURE_INDEX_SIZE: u32 = 4;

/// The viewport spans the render area from the origin.
#[derive(Clone, Copy, Debug, PartialEq, Eq, Structural)]
pub struct ViewportDesc {
    pub x: u32,
    pub y: u32,
    /// The width and the height in pixels; the other fields are bits.
    pub extent: Extent2D,
    pub min_depth: u32,
    pub max_depth: u32,
}

/// The part of the render area that is written.
#[derive(Clone, Copy, Debug, PartialEq, Eq, Structural)]
pub struct ScissorDesc {
    pub x: i32,
    pub y: i32,
    pub extent: Extent2D,
}

/// How vertices are put together.
#[derive(Clone, Copy, Debug, PartialEq, Eq, Structural)]
pub struct InputAssemblyDesc {
    pub topology: i32,
    pub primitive_restart_enable: bool,
}

/// How triangles become fragments; numbers are bits.
#[derive(Clone, Copy, Debug, PartialEq, Eq, Structural)]
pub struct RasterizationDesc {
    pub depth_clamp_enable: bool,
    pub rasterizer_discard_enable: bool,
    pub polygon_mode: i32,
    pub line_width: u32,
    pub cull_mode: u32,
    pub front_face: i32,
    pub depth_bias_enable: bool,
    pub depth_bias_constant_factor: u32,
    pub depth_bias_clamp: u32,
    pub depth_bias_slope_factor: u32,
}

/// How often a pixel is sampled.
#[derive(Clone, Copy, Debug, PartialEq, Eq, Structural)]
pub struct MultisampleDesc {
    pub sample_shading_enable: bool,
    pub rasterization_samples: u32,
    pub min_sample_shading: u32,
    pub alpha_to_coverage_enable: bool,
    pub alpha_to_one_enable: bool,
}

/// Which fragments pass; the bounds are bits.
#[derive(Clone, Copy, Debug, PartialEq, Eq, Structural)]
pub struct DepthStencilDesc {
    pub depth_test_enable: bool,
    pub depth_write_enable: bool,
    pub depth_compare_op: i32,
    pub depth_bounds_test_enable: bool,
    pub min_depth_bounds: u32,
    pub max_depth_bounds: u32,
    pub stencil_test_enable: bool,
}

/// How fragments are written to the color attachment.
#[derive(Clone, Copy, Debug, PartialEq, Eq, Structural)]
pub struct ColorBlendDesc {
    pub color_write_mask: u32,
    pub blend_enable: bool,
    pub src_color_blend_factor: i32,
    pub dst_color_blend_factor: i32,
    pub color_blend_op: i32,
    pub src_alpha_blend_factor: i32,
    pub dst_alpha_blend_factor: i32,
    pub alpha_blend_op: i32,
    pub logic_op_enable: bool,
    pub logic_op: i32,
    /// Each of the four blend constants.
    pub blend_constants: u32,
}

/// A range of push constant bytes that shader stages read.
#[derive(Clone, Copy, Debug, PartialEq, Eq, Structural)]
pub struct PushConstantRange {
    pub stage_flags: u32,
    pub offset: u32,
    pub size: u32,
}

/// A compiled shader.
#[derive(Clone, Copy, Debug, PartialEq, Eq, Structural)]
pub enum Shader {
    Vertex,
    Fragment,
}

/// A stage of the pipeline: the flag of the stage, the shader whose module it
/// runs, the file that the module is made from, and where it starts.
#[derive(Clone, Copy, Debug, PartialEq, Eq)]
pub struct ShaderStageDesc {
    pub stage: u32,
    pub shader: Shader,
    pub path: &'static str,
    pub entry_point: &'static str,
}

/// How far apart vertices lie in the vertex buffer, and when the next is taken.
#[derive(Clone, Copy, Debug, PartialEq, Eq, Structural)]
pub struct VertexBinding {
    pub binding: u32,
    pub stride: u32,
    pub input_rate: i32,
}

/// Where the shader finds one field of a vertex.
#[derive(Clone, Copy, Debug, PartialEq, Eq, Structural)]
pub struct VertexAttribute {
    pub location: u32,
    pub binding: u32,
    pub format: i32,
    pub offset: u32,
}

/// How vertices are read: position, color and texture coordinates.
#[derive(Clone, Copy, Debug, PartialEq, Eq, Structural)]
pub struct VertexInput {
    pub binding: VertexBinding,
    pub pos: VertexAttribute,
    pub color: VertexAttribute,
    pub coords: VertexAttribute,
}

/// The pipeline layout and the pipeline. Stencil operations are left at their
/// defaults.
#[derive(Clone, Copy, Debug, PartialEq, Eq)]
pub struct PipelineDesc {
    pub vertex_stage: ShaderStageDesc,
    pub fragment_stage: ShaderStageDesc,
    pub vertex_input: VertexInput,
    pub input_assembly: InputAssemblyDesc,
    pub viewport: ViewportDesc,
    pub scissor: ScissorDesc,
    pub rasterization: RasterizationDesc,
    pub multisample: MultisampleDesc,
    pub depth_stencil: DepthStencilDesc,
    pub color_blend: ColorBlendDesc,
    pub transform_range: PushConstantRange,
    pub texture_index_range: PushConstantRange,
    pub subpass: u32,
}

/// The push constants of the vertex shader: the transform.
pub open spec fn transform_range() -> PushConstantRange {
    PushConstantRange { stage_flags: SHADER_STAGE_VERTEX, offset: 0, size: TRANSFORM_SIZE }
}

/// The push constants of the vertex shader: the transform.
pub fn transform_push_range() -> (desc: PushConstantRange)
    ensures
        desc == transform_range(),
{
    PushConstantRange { stage_flags: SHADER_STAGE_VERTEX, offset: 0, size: TRANSFORM_SIZE }
}

/// The push constants of the fragment shader: the texture index.
pub open spec fn texture_index_range() -> PushConstantRange {
    PushConstantRange {
        stage_flags: SHADER_STAGE_FRAGMENT,
        offset: TRANSFORM_SIZE,
        size: TEXTURE_INDEX_SIZE,
    }
}

/// The push constants of the fragment shader: the texture index.
pub fn texture_index_push_range() -> (desc: PushConstantRange)
    ensures
        desc == texture_index_range(),
{
    PushConstantRange {
        stage_flags: SHADER_STAGE_FRAGMENT,
        offset: TRANSFORM_SIZE,
        size: TEXTURE_INDEX_SIZE,
    }
}

/// The stage that a shader runs at.
pub open spec fn stage_for(shader: Shader) -> ShaderStageDesc {
    match shader {
        Shader::Vertex => ShaderStageDesc {
            stage: SHADER_STAGE_VERTEX,
            shader,
            path: "shaders/shader_stage.vert.spv",
            entry_point: "main",
        },
        Shader::Fragment => ShaderStageDesc {
            stage: SHADER_STAGE_FRAGMENT,
            shader,
            path: "shaders/shader_stage.frag.spv",
            entry_point: "main",
        },
    }
}

/// The stage that a shader runs at.
pub fn shader_stage(shader: Shader) -> (desc: ShaderStageDesc)
    ensures
        desc == stage_for(shader),
{
    match shader {
        Shader::Vertex => ShaderStageDesc {
            stage: SHADER_STAGE_VERTEX,
            shader,
            path: "shaders/shader_stage.vert.spv",
            entry_point: "main",
        },
        Shader::Fragment => ShaderStageDesc {
            stage: SHADER_STAGE_FRAGMENT,
            shader,
            path: "shaders/shader_stage.frag.spv",
            entry_point: "main",
        },
    }
}

/// The pipeline that fills an area of `extent` with depth-tested triangles.
pub open spec fn pipeline_for(
    extent: Extent2D,
    msaa_samples: u32,
    vertex_input: VertexInput,
) -> PipelineDesc {
    PipelineDesc {
        vertex_stage: stage_for(Shader::Vertex),
        fragment_stage: stage_for(Shader::Fragment),
        vertex_input,
        input_assembly: InputAssemblyDesc {
            topology: TOPOLOGY_TRIANGLE_LIST,
            primitive_restart_enable: false,
        },
        viewport: ViewportDesc {
            x: FLOAT_ZERO,
            y: FLOAT_ZERO,
            extent,
            min_depth: FLOAT_ZERO,
            max_depth: FLOAT_ONE,
        },
        scissor: ScissorDesc { x: 0, y: 0, extent },
        rasterization: RasterizationDesc {
            depth_clamp_enable: false,
            rasterizer_discard_enable: false,
            polygon_mode: POLYGON_MODE_FILL,
            line_width: FLOAT_ONE,
            cull_mode: CULL_MODE_BACK,
            front_face: FRONT_FACE_COUNTER_CLOCKWISE,
            depth_bias_enable: false,
            depth_bias_constant_factor: FLOAT_ZERO,
            depth_bias_clamp: FLOAT_ZERO,
            depth_bias_slope_factor: FLOAT_ZERO,
        },
        multisample: MultisampleDesc {
            sample_shading_enable: false,
            rasterization_samples: msaa_samples,
            min_sample_shading: FLOAT_ONE,
            alpha_to_coverage_enable: false,
            alpha_to_one_enable: false,
        },
        depth_stencil: DepthStencilDesc {
            depth_test_enable: true,
            depth_write_enable: true,
            depth_compare_op: COMPARE_OP_LESS,
            depth_bounds_test_enable: false,
            min_depth_bounds: FLOAT_ZERO,
            max_depth_bounds: FLOAT_ONE,
            stencil_test_enable: false,
        },
        color_blend: ColorBlendDesc {
            color_write_mask: COLOR_COMPONENT_RGBA,
            blend_enable: false,
            src_color_blend_factor: BLEND_FACTOR_ONE,
            dst_color_blend_factor: BLEND_FACTOR_ZERO,
            color_blend_op: BLEND_OP_ADD,
            src_alpha_blend_factor: BLEND_FACTOR_ONE,
            dst_alpha_blend_factor: BLEND_FACTOR_ZERO,
            alpha_blend_op: BLEND_OP_ADD,
            logic_op_enable: false,
            logic_op: LOGIC_OP_COPY,
            blend_constants: FLOAT_ZERO,
        },
        transform_range: transform_range(),
        texture_index_range: texture_index_range(),
        subpass: 0,
    }
}

/// The pipeline that fills an area of `extent` with depth-tested triangles.
pub fn pipeline_desc(extent: Extent2D, msaa_samples: u32, vertex_input: VertexInput) -> (desc:
    PipelineDesc)
    ensures
        desc == pipeline_for(extent, msaa_samples, vertex_input),
{
    PipelineDesc {
        vertex_stage: shader_stage(Shader::Vertex),
        fragment_stage: shader_stage(Shader::Fragment),
        vertex_input,
        input_assembly: InputAssemblyDesc {
            topology: TOPOLOGY_TRIANGLE_LIST,
            primitive_restart_enable: false,
        },
        viewport: ViewportDesc {
            x: FLOAT_ZERO,
            y: FLOAT_ZERO,
            extent,
            min_depth: FLOAT_ZERO,
            max_depth: FLOAT_ONE,
        },
        scissor: ScissorDesc { x: 0, y: 0, extent },
        rasterization: RasterizationDesc {
            depth_clamp_enable: false,
            rasterizer_discard_enable: false,
            polygon_mode: POLYGON_MODE_FILL,
            line_width: FLOAT_ONE,
            cull_mode: CULL_MODE_BACK,
            front_face: FRONT_FACE_COUNTER_CLOCKWISE,
            depth_bias_enable: false,
            depth_bias_constant_factor: FLOAT_ZERO,
            depth_bias_clamp: FLOAT_ZERO,
            depth_bias_slope_factor: FLOAT_ZERO,
        },
        multisample: MultisampleDesc {
            sample_shading_enable: false,
            rasterization_samples: msaa_samples,
            min_sample_shading: FLOAT_ONE,
            alpha_to_coverage_enable: false,
            alpha_to_one_enable: false,
        },
        depth_stencil: DepthStencilDesc {
            depth_test_enable: true,
            depth_write_enable: true,
            depth_compare_op: COMPARE_OP_LESS,
            depth_bounds_test_enable: false,
            min_depth_bounds: FLOAT_ZERO,
            max_depth_bounds: FLOAT_ONE,
            stencil_test_enable: false,
        },
        color_blend: ColorBlendDesc {
            color_write_mask: COLOR_COMPONENT_RGBA,
            blend_enable: false,
            src_color_blend_factor: BLEND_FACTOR_ONE,
            dst_color_blend_factor: BLEND_FACTOR_ZERO,
            color_blend_op: BLEND_OP_ADD,
            src_alpha_blend_factor: BLEND_FACTOR_ONE,
            dst_alpha_blend_factor: BLEND_FACTOR_ZERO,
            alpha_blend_op: BLEND_OP_ADD,
            logic_op_enable: false,
            logic_op: LOGIC_OP_COPY,
            blend_constants: FLOAT_ZERO,
        },
        transform_range: transform_push_range(),
        texture_index_range: texture_index_push_range(),
        subpass: 0,
    }
}

} // verus!
