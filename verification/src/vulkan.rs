//! Numbers of the Vulkan interface. Floating-point settings are held as the
//! bits of the 32-bit number.

use vstd::prelude::*;

verus! {

pub const VK_TRUE: u32 = 1;

pub const ERROR_OUT_OF_DATE_KHR: i32 = -1000001004;

pub const SUBPASS_EXTERNAL: u32 = 0xffff_ffff;

pub const QUEUE_GRAPHICS: u32 = 0x1;

pub const QUEUE_TRANSFER: u32 = 0x4;

pub const FORMAT_D32_SFLOAT: i32 = 126;

pub const FORMAT_D24_UNORM_S8_UINT: i32 = 129;

pub const FORMAT_D32_SFLOAT_S8_UINT: i32 = 130;

pub const IMAGE_TILING_OPTIMAL: i32 = 0;

pub const FORMAT_FEATURE_DEPTH_STENCIL_ATTACHMENT: u32 = 0x200;

pub const SAMPLE_COUNT_1: u32 = 0x1;

pub const LOAD_OP_LOAD: i32 = 0;

pub const LOAD_OP_CLEAR: i32 = 1;

pub const LOAD_OP_DONT_CARE: i32 = 2;

pub const STORE_OP_STORE: i32 = 0;

pub const STORE_OP_DONT_CARE: i32 = 1;

pub const LAYOUT_UNDEFINED: i32 = 0;

pub const LAYOUT_COLOR_ATTACHMENT_OPTIMAL: i32 = 2;

pub const LAYOUT_DEPTH_STENCIL_ATTACHMENT_OPTIMAL: i32 = 3;

pub const LAYOUT_SHADER_READ_ONLY_OPTIMAL: i32 = 5;

pub const LAYOUT_PRESENT_SRC_KHR: i32 = 1000001002;

pub const BIND_POINT_GRAPHICS: i32 = 0;

pub const STAGE_COLOR_ATTACHMENT_OUTPUT: u32 = 0x400;

pub const ACCESS_NONE: u32 = 0;

pub const ACCESS_COLOR_ATTACHMENT_READ_WRITE: u32 = 0x180;

pub const SHADER_STAGE_VERTEX: u32 = 0x1;

pub const SHADER_STAGE_FRAGMENT: u32 = 0x10;

pub const TOPOLOGY_TRIANGLE_LIST: i32 = 3;

pub const POLYGON_MODE_FILL: i32 = 0;

pub const CULL_MODE_BACK: u32 = 0x2;

pub const FRONT_FACE_COUNTER_CLOCKWISE: i32 = 0;

pub const COMPARE_OP_LESS: i32 = 1;

pub const COMPARE_OP_ALWAYS: i32 = 7;

pub const COLOR_COMPONENT_RGBA: u32 = 0xf;

pub const BLEND_FACTOR_ZERO: i32 = 0;

pub const BLEND_FACTOR_ONE: i32 = 1;

pub const BLEND_OP_ADD: i32 = 0;

pub const LOGIC_OP_COPY: i32 = 3;

pub const DESCRIPTOR_COMBINED_IMAGE_SAMPLER: i32 = 1;

pub const DESCRIPTOR_UNIFORM_BUFFER: i32 = 6;

pub const DESCRIPTOR_BINDING_PARTIALLY_BOUND: u32 = 0x4;

pub const DESCRIPTOR_BINDING_VARIABLE_DESCRIPTOR_COUNT: u32 = 0x8;

pub const FILTER_LINEAR: i32 = 1;

pub const ADDRESS_MODE_REPEAT: i32 = 0;

pub const BORDER_COLOR_INT_OPAQUE_BLACK: i32 = 3;

pub const MIPMAP_MODE_LINEAR: i32 = 1;

pub const COMMAND_POOL_CREATE_NONE: u32 = 0;

pub const COMMAND_POOL_CREATE_TRANSIENT: u32 = 0x1;

pub const COMMAND_BUFFER_LEVEL_PRIMARY: i32 = 0;

pub const COMMAND_BUFFER_USAGE_SIMULTANEOUS_USE: u32 = 0x4;

pub const SUBPASS_CONTENTS_INLINE: i32 = 0;

pub const INDEX_TYPE_UINT32: i32 = 1;

pub const BUFFER_USAGE_UNIFORM_BUFFER: u32 = 0x10;

pub const BUFFER_USAGE_INDEX_BUFFER: u32 = 0x40;

pub const BUFFER_USAGE_VERTEX_BUFFER: u32 = 0x80;

pub const MEMORY_HOST_VISIBLE_COHERENT: u32 = 0x6;

pub const FLOAT_ZERO: u32 = 0;

pub const FLOAT_HALF: u32 = 0x3f00_0000;

pub const FLOAT_THREE_QUARTERS: u32 = 0x3f40_0000;

pub const FLOAT_ONE: u32 = 0x3f80_0000;

pub const FLOAT_SIXTEEN: u32 = 0x4180_0000;

/// A width and a height in pixels.
#[derive(Clone, Copy, Debug, PartialEq, Eq, Structural)]
pub struct Extent2D {
    pub width: u32,
    pub height: u32,
}

} // verus!
