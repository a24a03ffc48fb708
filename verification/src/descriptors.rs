//! Descriptors, the texture sampler and the buffers behind them.

use vstd::prelude::*;

use crate::vulkan::{
    ADDRESS_MODE_REPEAT, BORDER_COLOR_INT_OPAQUE_BLACK, BUFFER_USAGE_INDEX_BUFFER,
    BUFFER_USAGE_UNIFORM_BUFFER, BUFFER_USAGE_VERTEX_BUFFER, COMPARE_OP_ALWAYS,
    DESCRIPTOR_BINDING_PARTIALLY_BOUND, DESCRIPTOR_BINDING_VARIABLE_DESCRIPTOR_COUNT,
    DESCRIPTOR_COMBINED_IMAGE_SAMPLER, DESCRIPTOR_UNIFORM_BUFFER, FILTER_LINEAR, FLOAT_SIXTEEN,
    FLOAT_ZERO, LAYOUT_SHADER_READ_ONLY_OPTIMAL, MEMORY_HOST_VISIBLE_COHERENT,
    MIPMAP_MODE_LINEAR, SHADER_STAGE_FRAGMENT,
};

verus! {

/// How many frames are worked on at once.
pub const MAX_FRAMES_IN_FLIGHT: u32 = 3;

/// The bytes of the vertex buffer and of the index buffer.
pub const PAGE_SIZE: u64 = 0x1_0000_0000;

/// The binding of the uniform buffer in a descriptor set.
pub const UNIFORM_BINDING: u32 = 0;

/// The binding of the texture array in a descriptor set.
pub const TEXTURE_BINDING: u32 = 1;

/// How many textures the texture array can hold.
pub const TEXTURE_LIMIT: u32 = 1048576;

/// The alignment of the mapped uniform data, that of a 32-bit number.
pub const UNIFORM_ALIGNMENT: u64 = 4;

/// One binding of a descriptor set layout.
#[derive(Clone, Copy, Debug, PartialEq, Eq, Structural)]
pub struct DescriptorSetLayoutBinding {
    pub binding: u32,
    pub descriptor_type: i32,
    pub descriptor_count: u32,
    pub stage_flags: u32,
}

/// The global data of the shaders, uploaded anew for each frame.
pub trait UBO {
    /// The binding under which the shaders see this data.
    fn get_descriptor_set_layout_binding() -> DescriptorSetLayoutBinding;
}

/// The layout of a descriptor set: the uniform buffer, then the texture array.
#[derive(Clone, Copy, Debug, PartialEq, Eq, Structural)]
pub struct DescriptorSetLayoutDesc {
    pub uniform: DescriptorSetLayoutBinding,
    pub textures: DescriptorSetLayoutBinding,
    pub uniform_flags: u32,
    pub textures_flags: u32,
    /// How many of the flags are announced.
    pub flag_count: u32,
}

/// The descriptor set layout for a uniform binding.
pub open spec fn descriptor_set_layout_for(uniform: DescriptorSetLayoutBinding) -> DescriptorSetLayoutDesc {
    DescriptorSetLayoutDesc {
        uniform,
        textures: DescriptorSetLayoutBinding {
            binding: TEXTURE_BINDING,
            descriptor_type: DESCRIPTOR_COMBINED_IMAGE_SAMPLER,
            descriptor_count: TEXTURE_LIMIT,
            stage_flags: SHADER_STAGE_FRAGMENT,
        },
        uniform_flags: DESCRIPTOR_BINDING_PARTIALLY_BOUND,
        textures_flags: DESCRIPTOR_BINDING_VARIABLE_DESCRIPTOR_COUNT,
        flag_count: 0,
    }
}

/// The descriptor set layout for a uniform binding.
pub fn descriptor_set_layout_desc(uniform: DescriptorSetLayoutBinding) -> (desc: DescriptorSetLayoutDesc)
    ensures
        desc == descriptor_set_layout_for(uniform),
{
    DescriptorSetLayoutDesc {
        uniform,
        textures: DescriptorSetLayoutBinding {
            binding: TEXTURE_BINDING,
            descriptor_type: DESCRIPTOR_COMBINED_IMAGE_SAMPLER,
            descriptor_count: TEXTURE_LIMIT,
            stage_flags: SHADER_STAGE_FRAGMENT,
        },
        uniform_flags: DESCRIPTOR_BINDING_PARTIALLY_BOUND,
        textures_flags: DESCRIPTOR_BINDING_VARIABLE_DESCRIPTOR_COUNT,
        flag_count: 0,
    }
}

/// How many descriptors of a type a pool holds.
#[derive(Clone, Copy, Debug, PartialEq, Eq, Structural)]
pub struct DescriptorPoolSize {
    pub descriptor_type: i32,
    pub descriptor_count: u32,
}

/// A pool to allocate descriptor sets from.
#[derive(Clone, Copy, Debug, PartialEq, Eq, Structural)]
pub struct DescriptorPoolDesc {
    pub uniforms: DescriptorPoolSize,
    pub samplers: DescriptorPoolSize,
    pub max_sets: u32,
}

/// The pool for `size` descriptor sets.
pub open spec fn descriptor_pool_for(size: u32) -> DescriptorPoolDesc {
    DescriptorPoolDesc {
        uniforms: DescriptorPoolSize {
            descriptor_type: DESCRIPTOR_UNIFORM_BUFFER,
            descriptor_count: size,
        },
        samplers: DescriptorPoolSize {
            descriptor_type: DESCRIPTOR_COMBINED_IMAGE_SAMPLER,
            descriptor_count: size,
        },
        max_sets: size,
    }
}

/// The pool for `size` descriptor sets.
pub fn descriptor_pool_desc(size: u32) -> (desc: DescriptorPoolDesc)
    ensures
        desc == descriptor_pool_for(size),
{
    DescriptorPoolDesc {
        uniforms: DescriptorPoolSize {
            descriptor_type: DESCRIPTOR_UNIFORM_BUFFER,
            descriptor_count: size,
        },
        samplers: DescriptorPoolSize {
            descriptor_type: DESCRIPTOR_COMBINED_IMAGE_SAMPLER,
            descriptor_count: size,
        },
        max_sets: size,
    }
}

/// Points a descriptor set at the uniform buffer of the same position.
#[derive(Clone, Copy, Debug, PartialEq, Eq, Structural)]
pub struct UniformWrite {
    pub set: u32,
    pub binding: u32,
    pub array_element: u32,
    pub descriptor_type: i32,
    pub buffer: u32,
    pub offset: u64,
    pub range: u64,
}

/// The write that gives set `index` its uniform buffer of `range` bytes.
pub open spec fn uniform_write_for(index: u32, range: u64) -> UniformWrite {
    UniformWrite {
        set: index,
        binding: UNIFORM_BINDING,
        array_element: 0,
        descriptor_type: DESCRIPTOR_UNIFORM_BUFFER,
        buffer: index,
        offset: 0,
        range,
    }
}

/// The write that gives set `index` its uniform buffer of `range` bytes.
pub fn uniform_write(index: u32, range: u64) -> (desc: UniformWrite)
    ensures
        desc == uniform_write_for(index, range),
{
    UniformWrite {
        set: index,
        binding: UNIFORM_BINDING,
        array_element: 0,
        descriptor_type: DESCRIPTOR_UNIFORM_BUFFER,
        buffer: index,
        offset: 0,
        range,
    }
}

/// Points an element of the texture array of a descriptor set at a texture.
#[derive(Clone, Copy, Debug, PartialEq, Eq, Structural)]
pub struct TextureWrite {
    pub set: u32,
    pub binding: u32,
    pub array_element: u32,
    pub descriptor_type: i32,
    pub image_layout: i32,
    pub texture: u32,
}

/// The write that puts texture `texture` at its own index of set `set`.
pub open spec fn texture_write_for(set: u32, texture: u32) -> TextureWrite {
    TextureWrite {
        set,
        binding: TEXTURE_BINDING,
        array_element: texture,
        descriptor_type: DESCRIPTOR_COMBINED_IMAGE_SAMPLER,
        image_layout: LAYOUT_SHADER_READ_ONLY_OPTIMAL,
        texture,
    }
}

/// The write that puts texture `texture` at its own index of set `set`.
pub fn texture_write(set: u32, texture: u32) -> (desc: TextureWrite)
    ensures
        desc == texture_write_for(set, texture),
{
    TextureWrite {
        set,
        binding: TEXTURE_BINDING,
        array_element: texture,
        descriptor_type: DESCRIPTOR_COMBINED_IMAGE_SAMPLER,
        image_layout: LAYOUT_SHADER_READ_ONLY_OPTIMAL,
        texture,
    }
}

/// How textures are sampled.
#[derive(Clone, Copy, Debug, PartialEq, Eq, Structural)]
pub struct SamplerDesc {
    pub mag_filter: i32,
    pub min_filter: i32,
    pub address_mode_u: i32,
    pub address_mode_v: i32,
    pub address_mode_w: i32,
    pub anisotropy_enable: bool,
    pub max_anisotropy: u32,
    pub border_color: i32,
    pub unnormalized_coordinates: bool,
    pub compare_enable: bool,
    pub compare_op: i32,
    pub mipmap_mode: i32,
    pub mip_lod_bias: u32,
    pub min_lod: u32,
    pub max_lod: u32,
}

/// The sampler of all textures.
pub open spec fn texture_sampler() -> SamplerDesc {
    SamplerDesc {
        mag_filter: FILTER_LINEAR,
        min_filter: FILTER_LINEAR,
        address_mode_u: ADDRESS_MODE_REPEAT,
        address_mode_v: ADDRESS_MODE_REPEAT,
        address_mode_w: ADDRESS_MODE_REPEAT,
        anisotropy_enable: true,
        max_anisotropy: FLOAT_SIXTEEN,
        border_color: BORDER_COLOR_INT_OPAQUE_BLACK,
        unnormalized_coordinates: false,
        compare_enable: false,
        compare_op: COMPARE_OP_ALWAYS,
        mipmap_mode: MIPMAP_MODE_LINEAR,
        mip_lod_bias: FLOAT_ZERO,
        min_lod: FLOAT_ZERO,
        max_lod: FLOAT_ZERO,
    }
}

/// The sampler of all textures.
pub fn sampler_desc() -> (desc: SamplerDesc)
    ensures
        desc == texture_sampler(),
{
    SamplerDesc {
        mag_filter: FILTER_LINEAR,
        min_filter: FILTER_LINEAR,
        address_mode_u: ADDRESS_MODE_REPEAT,
        address_mode_v: ADDRESS_MODE_REPEAT,
        address_mode_w: ADDRESS_MODE_REPEAT,
        anisotropy_enable: true,
        max_anisotropy: FLOAT_SIXTEEN,
        border_color: BORDER_COLOR_INT_OPAQUE_BLACK,
        unnormalized_coordinates: false,
        compare_enable: false,
        compare_op: COMPARE_OP_ALWAYS,
        mipmap_mode: MIPMAP_MODE_LINEAR,
        mip_lod_bias: FLOAT_ZERO,
        min_lod: FLOAT_ZERO,
        max_lod: FLOAT_ZERO,
    }
}

/// A buffer that the host writes.
#[derive(Clone, Copy, Debug, PartialEq, Eq, Structural)]
pub struct HostBufferDesc {
    pub size: u64,
    pub usage: u32,
    pub memory_properties: u32,
}

/// The buffer of `size` bytes of uniform data.
pub open spec fn uniform_buffer_for(size: u64) -> HostBufferDesc {
    HostBufferDesc {
        size,
        usage: BUFFER_USAGE_UNIFORM_BUFFER,
        memory_properties: MEMORY_HOST_VISIBLE_COHERENT,
    }
}

/// The buffer of `size` bytes of uniform data.
pub fn uniform_buffer_desc(size: u64) -> (desc: HostBufferDesc)
    ensures
        desc == uniform_buffer_for(size),
{
    HostBufferDesc {
        size,
        usage: BUFFER_USAGE_UNIFORM_BUFFER,
        memory_properties: MEMORY_HOST_VISIBLE_COHERENT,
    }
}

/// A buffer that only the device reads, filled by transfers.
#[derive(Clone, Copy, Debug, PartialEq, Eq, Structural)]
pub struct DeviceBufferDesc {
    pub usage: u32,
    pub size: u64,
}

/// The buffer of all vertices.
pub open spec fn vertex_buffer_whole() -> DeviceBufferDesc {
    DeviceBufferDesc { usage: BUFFER_USAGE_VERTEX_BUFFER, size: PAGE_SIZE }
}

/// The buffer of all vertices.
pub fn vertex_buffer_desc() -> (desc: DeviceBufferDesc)
    ensures
        desc == vertex_buffer_whole(),
{
    DeviceBufferDesc { usage: BUFFER_USAGE_VERTEX_BUFFER, size: PAGE_SIZE }
}

/// The buffer of all indices.
pub open spec fn index_buffer_whole() -> DeviceBufferDesc {
    DeviceBufferDesc { usage: BUFFER_USAGE_INDEX_BUFFER, size: PAGE_SIZE }
}

/// The buffer of all indices.
pub fn index_buffer_desc() -> (desc: DeviceBufferDesc)
    ensures
        desc == index_buffer_whole(),
{
    DeviceBufferDesc { usage: BUFFER_USAGE_INDEX_BUFFER, size: PAGE_SIZE }
}

} // verus!
