//! Where two descriptions have to match, they do.

use vstd::prelude::*;

use crate::descriptors::{
    descriptor_pool_for, descriptor_set_layout_for, texture_write_for, uniform_buffer_for,
    uniform_write_for, DescriptorSetLayoutBinding, TEXTURE_LIMIT,
};
use crate::pipeline::{pipeline_for, texture_index_range, transform_range, VertexInput};
use crate::recording::{draw_call, Command};
use crate::scene::Transform;
use crate::targets::{framebuffer_for, render_pass_for, AttachmentView, FramebufferDesc};
use crate::vulkan::{Extent2D, SAMPLE_COUNT_1};

verus! {

/// Law: the pipeline rasterizes with the sample count of the attachments that
/// it draws to, and the resolved image has one sample and the color format.
pub proof fn law_pipeline_fits_the_render_pass(
    format: i32,
    msaa_samples: u32,
    depth_format: i32,
    extent: Extent2D,
    vertex_input: VertexInput,
)
    ensures
        ({
            let pass = render_pass_for(format, msaa_samples, depth_format);
            let samples = pipeline_for(extent, msaa_samples, vertex_input).multisample.rasterization_samples;
            &&& samples == pass.color.samples
            &&& samples == pass.depth.samples
            &&& pass.resolve.samples == SAMPLE_COUNT_1
            &&& pass.resolve.format == pass.color.format
        }),
{
}

/// The view that a framebuffer holds at a position.
pub open spec fn view_at(framebuffer: FramebufferDesc, attachment: u32) -> AttachmentView {
    if attachment == 0 {
        framebuffer.color
    } else if attachment == 1 {
        framebuffer.depth
    } else {
        framebuffer.resolve
    }
}

/// Law: the render pass draws to the color and the depth texture and resolves
/// into the swapchain image of the framebuffer, over the area of the pipeline.
pub proof fn law_framebuffer_fits_the_render_pass(
    image: u32,
    format: i32,
    msaa_samples: u32,
    depth_format: i32,
    extent: Extent2D,
    vertex_input: VertexInput,
)
    ensures
        ({
            let pass = render_pass_for(format, msaa_samples, depth_format);
            let framebuffer = framebuffer_for(image, extent);
            let area = pipeline_for(extent, msaa_samples, vertex_input).scissor.extent;
            &&& view_at(framebuffer, pass.color_reference.attachment)
                == AttachmentView::ColorTexture
            &&& view_at(framebuffer, pass.depth_reference.attachment)
                == AttachmentView::DepthTexture
            &&& view_at(framebuffer, pass.resolve_reference.attachment)
                == AttachmentView::SwapchainImage(image)
            &&& framebuffer.width == area.width
            &&& framebuffer.height == area.height
        }),
{
}

/// Law: a draw call pushes its constants in the ranges that the pipeline layout
/// declares.
pub proof fn law_pushes_fit_the_pipeline(
    index_count: usize,
    transform: Transform,
    first_index: u32,
    vertex_offset: i32,
    texture_index: u32,
    extent: Extent2D,
    msaa_samples: u32,
    vertex_input: VertexInput,
)
    ensures
        ({
            let call = draw_call(index_count, transform, first_index, vertex_offset, texture_index);
            let pipeline = pipeline_for(extent, msaa_samples, vertex_input);
            &&& call[0] == (Command::PushTransform { range: pipeline.transform_range, transform })
            &&& call[1] == (Command::PushTextureIndex {
                range: pipeline.texture_index_range,
                texture_index,
            })
        }),
{
}

/// Law: the two push constant ranges follow one another without a gap and do
/// not overlap.
pub proof fn law_push_constant_ranges_adjoin()
    ensures
        transform_range().offset == 0,
        texture_index_range().offset == transform_range().offset + transform_range().size,
{
}

/// Law: a texture is written as the layout declares the texture array, to an
/// element of that array.
pub proof fn law_texture_writes_fit_the_layout(
    uniform: DescriptorSetLayoutBinding,
    set: u32,
    texture: u32,
)
    requires
        texture < TEXTURE_LIMIT,
    ensures
        ({
            let textures = descriptor_set_layout_for(uniform).textures;
            let write = texture_write_for(set, texture);
            &&& write.binding == textures.binding
            &&& write.descriptor_type == textures.descriptor_type
            &&& write.array_element < textures.descriptor_count
        }),
{
}

/// Law: a descriptor set sees the whole uniform buffer of its position and
/// nothing beyond it, and the pool holds a uniform descriptor for each set.
pub proof fn law_uniform_writes_fit_the_buffer(index: u32, size: u64, sets: u32)
    ensures
        ({
            let write = uniform_write_for(index, size);
            let pool = descriptor_pool_for(sets);
            &&& write.buffer == write.set
            &&& write.offset + write.range == uniform_buffer_for(size).size
            &&& write.descriptor_type == pool.uniforms.descriptor_type
            &&& pool.uniforms.descriptor_count == pool.max_sets == sets
        }),
{
}

} // verus!
