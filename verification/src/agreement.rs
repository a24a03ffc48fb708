//! How the requests of a list agree with one another and with what the renderer
//! was given: its queue families, its swapchain, its sample count, its depth
//! format and the layout of its data.

use vstd::prelude::*;

use crate::actions::GpuAction;
use crate::descriptors::{
    DescriptorPoolDesc, DescriptorSetLayoutBinding, DescriptorSetLayoutDesc, HostBufferDesc,
    SamplerDesc, TextureWrite, UniformWrite, UBO,
};
use crate::device::{QueueFamiliesIndices, SetupError};
use crate::instance::RenderInstance;
use crate::pipeline::{pipeline_for, PipelineDesc, Shader, VertexInput};
use crate::plans::{
    cleanup_actions, creation_actions, creation_plan, framebuffer_actions, map_actions,
    pipeline_actions, recorded, recordings, replace_swapchain_actions, replace_swapchain_plan,
    restore_actions, restore_plan, sync_actions, texture_actions, uniform_buffer_actions,
    uniform_write_actions,
};
use crate::playback::law_recordings_keep_to_their_buffer;
use crate::raster::{is_filled, is_inside, Winding};
use crate::recording::{
    command_stream, is_draw, lemma_scene_draws_only_draw, scene_draws, stream_end, stream_start,
    Command,
};
use crate::scene::Renderable;
use crate::targets::{
    render_pass_desc, AttachmentView, FramebufferDesc, RenderPassDesc, SwapchainDesc,
    SwapchainWrapper,
};
use crate::vulkan::Extent2D;

verus! {

/// What the renderer was given.
pub ghost struct Given {
    pub families: QueueFamiliesIndices,
    pub swapchain: SwapchainWrapper,
    pub msaa_samples: u32,
    pub depth_format: i32,
    pub vertex_input: VertexInput,
    pub uniform: DescriptorSetLayoutBinding,
    pub uniform_size: u64,
}

/// The format of the image behind a view.
pub open spec fn view_format(given: Given, view: AttachmentView) -> i32 {
    match view {
        AttachmentView::ColorTexture => given.swapchain.properties.format,
        AttachmentView::DepthTexture => given.depth_format,
        AttachmentView::SwapchainImage(_) => given.swapchain.properties.format,
    }
}

/// How often the image behind a view is sampled. Presented images are not
/// multisampled.
pub open spec fn view_samples(given: Given, view: AttachmentView) -> u32 {
    match view {
        AttachmentView::ColorTexture => given.msaa_samples,
        AttachmentView::DepthTexture => given.msaa_samples,
        AttachmentView::SwapchainImage(_) => 1,
    }
}

/// A framebuffer shows image `index`: it draws to the color and the depth texture,
/// resolves into that image, and is as large as it.
pub open spec fn shows_image(desc: FramebufferDesc, index: u32, given: Given) -> bool {
    &&& desc.color is ColorTexture
    &&& desc.depth is DepthTexture
    &&& desc.resolve == AttachmentView::SwapchainImage(index)
    &&& desc.width == given.swapchain.properties.extent.width
    &&& desc.height == given.swapchain.properties.extent.height
    &&& desc.layers == 1
    &&& index < given.swapchain.images
}

/// A render pass takes the views of a framebuffer: each attachment has the format
/// and the sample count of the image behind its view.
pub open spec fn takes_views(pass: RenderPassDesc, desc: FramebufferDesc, given: Given) -> bool {
    &&& pass.color.format == view_format(given, desc.color)
    &&& pass.color.samples == view_samples(given, desc.color)
    &&& pass.depth.format == view_format(given, desc.depth)
    &&& pass.depth.samples == view_samples(given, desc.depth)
    &&& pass.resolve.format == view_format(given, desc.resolve)
    &&& pass.resolve.samples == view_samples(given, desc.resolve)
}

/// A render pass starts from cleared color and depth, whatever was there before,
/// keeps what was resolved, and leaves it ready to be presented.
pub open spec fn clears_and_presents(pass: RenderPassDesc) -> bool {
    &&& pass.color.load_op == 1 && pass.color.store_op == 0
    &&& pass.depth.load_op == 1 && pass.depth.store_op == 1
    &&& pass.resolve.load_op == 2 && pass.resolve.store_op == 0
    &&& pass.color.initial_layout == 0
    &&& pass.depth.initial_layout == 0
    &&& pass.resolve.initial_layout == 0
    &&& pass.color.final_layout == pass.color_reference.layout
    &&& pass.depth.final_layout == pass.depth_reference.layout
    &&& pass.resolve.final_layout == 1000001002
    &&& pass.color_reference.layout == 2
    &&& pass.resolve_reference.layout == 2
    &&& pass.depth_reference.layout == 3
    &&& pass.color.stencil_load_op == 0 && pass.color.stencil_store_op == 0
    &&& pass.depth.stencil_load_op == 2 && pass.depth.stencil_store_op == 1
    &&& pass.resolve.stencil_load_op == 2 && pass.resolve.stencil_store_op == 1
}

/// The one subpass uses every attachment once, in the order color, depth, resolve,
/// and waits with its color output for that of what came before it.
pub open spec fn has_one_graphics_subpass(pass: RenderPassDesc) -> bool {
    &&& pass.bind_point == 0
    &&& pass.color_reference.attachment == 0
    &&& pass.depth_reference.attachment == 1
    &&& pass.resolve_reference.attachment == 2
    &&& pass.dependency.src_subpass == u32::MAX
    &&& pass.dependency.dst_subpass == 0
    &&& pass.dependency.src_stage_mask == 0x400
    &&& pass.dependency.src_access_mask == 0
    &&& pass.dependency.dst_stage_mask == pass.dependency.src_stage_mask
    &&& pass.dependency.dst_access_mask == 0x80 + 0x100
}

/// A pipeline draws to the images of the swapchain.
pub open spec fn draws_to_images(desc: PipelineDesc, given: Given) -> bool {
    let extent = given.swapchain.properties.extent;
    &&& desc.multisample.rasterization_samples == given.msaa_samples
    &&& desc.vertex_input == given.vertex_input
    &&& desc.viewport.extent == extent
    &&& desc.scissor.extent == extent
    &&& desc.scissor.x == 0 && desc.scissor.y == 0
    &&& is_filled(desc.rasterization, Winding::CounterClockwise)
    &&& desc.subpass == 0
    &&& desc == pipeline_for(extent, given.msaa_samples, given.vertex_input)
}

/// A descriptor set holds the uniform data as it was given, and an array of
/// textures for the fragment shader at a binding of its own.
pub open spec fn holds_uniform_and_textures(desc: DescriptorSetLayoutDesc, given: Given) -> bool {
    &&& desc.uniform == given.uniform
    &&& desc.textures.binding == 1
    &&& desc.textures.descriptor_type == 1
    &&& desc.textures.descriptor_count == 1024 * 1024
    &&& desc.textures.stage_flags == 0x10
    &&& desc.uniform_flags == 4
    &&& desc.textures_flags == 8
    &&& desc.flag_count == 0
}

/// A pool has room for three sets, each with a uniform buffer and a sampler.
pub open spec fn has_room_for_the_sets(desc: DescriptorPoolDesc) -> bool {
    &&& desc.max_sets == 3
    &&& desc.uniforms.descriptor_type == 6
    &&& desc.uniforms.descriptor_count == desc.max_sets
    &&& desc.samplers.descriptor_type == 1
    &&& desc.samplers.descriptor_count == desc.max_sets
}

/// A set is pointed at the whole uniform buffer of its own position.
pub open spec fn points_at_its_uniform(write: UniformWrite, given: Given) -> bool {
    &&& write.buffer == write.set
    &&& write.set < 3
    &&& write.binding == 0
    &&& write.array_element == 0
    &&& write.descriptor_type == 6
    &&& write.offset == 0
    &&& write.range == given.uniform_size
}

/// An element of a texture array is pointed at the texture of its own position,
/// ready to be read by shaders.
pub open spec fn points_at_its_texture(write: TextureWrite) -> bool {
    &&& write.array_element == write.texture
    &&& write.binding == 1
    &&& write.descriptor_type == 1
    &&& write.image_layout == 5
}

/// Textures are smoothed in all directions, repeat in all directions, and are
/// read at normalized coordinates without comparison, at full detail.
pub open spec fn smooths_and_repeats(desc: SamplerDesc) -> bool {
    &&& desc.mag_filter == 1 && desc.min_filter == 1 && desc.mipmap_mode == 1
    &&& desc.address_mode_u == 0 && desc.address_mode_v == 0 && desc.address_mode_w == 0
    &&& desc.anisotropy_enable && desc.max_anisotropy == 0x4180_0000
    &&& !desc.unnormalized_coordinates
    &&& !desc.compare_enable && desc.compare_op == 7
    &&& desc.border_color == 3
    &&& desc.mip_lod_bias == 0 && desc.min_lod == 0 && desc.max_lod == 0
}

/// A buffer of uniform data that the host can write without flushing.
pub open spec fn is_host_uniform(memory: HostBufferDesc, given: Given) -> bool {
    &&& memory.size == given.uniform_size
    &&& memory.usage == 0x10
    &&& memory.memory_properties == 2 + 4
}

/// A recorded command keeps to the image of its command buffer.
pub open spec fn keeps_to_image(buffer: u32, command: Command, given: Given) -> bool {
    &&& buffer < given.swapchain.images
    &&& command matches Command::BeginRenderPass { framebuffer, extent, .. } ==> framebuffer
        == buffer && extent == given.swapchain.properties.extent
    &&& command matches Command::BindDescriptorSet { set, .. } ==> set == buffer
}

/// A request agrees with what the renderer was given.
pub open spec fn agrees(action: GpuAction, given: Given) -> bool {
    match action {
        GpuAction::CreateGraphicsCommandPool { queue_family_index, flags } => {
            queue_family_index == given.families.graphics_index && flags == 0
        },
        GpuAction::CreateTransferCommandPool { queue_family_index, flags } => {
            queue_family_index == given.families.transfer_index && flags == 1
        },
        GpuAction::CreateSwapchain(desc) => {
            &&& desc.queue_families_indices == given.families
            &&& desc.msaa_samples == given.msaa_samples
            &&& desc.depth_format == given.depth_format
        },
        GpuAction::CreateRenderPass(pass) => {
            &&& pass.color.format == given.swapchain.properties.format
            &&& pass.resolve.format == given.swapchain.properties.format
            &&& pass.depth.format == given.depth_format
            &&& pass.color.samples == given.msaa_samples
            &&& pass.depth.samples == given.msaa_samples
            &&& pass.resolve.samples == 1
            &&& clears_and_presents(pass)
            &&& has_one_graphics_subpass(pass)
        },
        GpuAction::CreateDescriptorSetLayout(desc) => holds_uniform_and_textures(desc, given),
        GpuAction::CreateShaderModule { shader, path } => match shader {
            Shader::Vertex => path == "shaders/shader_stage.vert.spv",
            Shader::Fragment => path == "shaders/shader_stage.frag.spv",
        },
        GpuAction::CreatePipeline(desc) => draws_to_images(desc, given),
        GpuAction::CreateFramebuffer { index, desc } => shows_image(desc, index, given),
        GpuAction::CreateSyncObjects { index } => index < 3,
        GpuAction::CreateUniformBuffer { index, memory } => index < 3 && is_host_uniform(
            memory,
            given,
        ),
        GpuAction::CreateSampler(desc) => smooths_and_repeats(desc),
        GpuAction::CreateDescriptorPool(desc) => has_room_for_the_sets(desc),
        GpuAction::AllocateDescriptorSets { count } => count == 3,
        GpuAction::WriteUniform(write) => points_at_its_uniform(write, given),
        GpuAction::WriteTexture(write) => points_at_its_texture(write),
        GpuAction::MapUniformBuffer { index, offset, size, alignment } => {
            index < 3 && offset == 0 && size == given.uniform_size && alignment == 4
        },
        GpuAction::CreateVertexBuffer(desc) => desc.usage == 0x80 && desc.size == 0x1_0000_0000,
        GpuAction::CreateIndexBuffer(desc) => desc.usage == 0x40 && desc.size == 0x1_0000_0000,
        GpuAction::AllocateCommandBuffers { count, level } => {
            count == given.swapchain.images && level == 0
        },
        GpuAction::Record { buffer, command } => keeps_to_image(buffer, command, given),
        _ => true,
    }
}

/// All requests of a list agree with what the renderer was given.
pub open spec fn all_agree(actions: Seq<GpuAction>, given: Given) -> bool {
    forall|k: int| 0 <= k < actions.len() ==> agrees(#[trigger] actions[k], given)
}

/// Two lists that agree, one after the other.
proof fn lemma_all_agree_concat(first: Seq<GpuAction>, second: Seq<GpuAction>, given: Given)
    requires
        all_agree(first, given),
        all_agree(second, given),
    ensures
        all_agree(first + second, given),
{
    let both = first + second;
    assert forall|k: int| 0 <= k < both.len() implies agrees(#[trigger] both[k], given) by {
        if k < first.len() {
            assert(both[k] == first[k]);
        } else {
            assert(both[k] == second[k - first.len()]);
        }
    }
}

/// The pipeline and its shader modules agree.
proof fn lemma_pipeline_agrees(given: Given)
    ensures
        all_agree(
            pipeline_actions(
                given.swapchain.properties.extent,
                given.msaa_samples,
                given.vertex_input,
            ),
            given,
        ),
{
    assert(2u32 & 1 == 0) by (bit_vector);
}

/// The recordings agree.
proof fn lemma_recordings_agree(count: nat, renderables: Seq<Renderable>, given: Given)
    requires
        count <= given.swapchain.images,
    ensures
        all_agree(recordings(count, given.swapchain.properties.extent, renderables), given),
    decreases count,
{
    if count > 0 {
        let extent = given.swapchain.properties.extent;
        let buffer = (count - 1) as u32;
        let stream = command_stream(buffer, extent, renderables);
        let start = stream_start(buffer, extent);
        let draws = scene_draws(renderables);
        let back = recorded(buffer, stream);
        lemma_recordings_agree((count - 1) as nat, renderables, given);
        lemma_scene_draws_only_draw(renderables);
        assert forall|j: int| 0 <= j < back.len() implies agrees(#[trigger] back[j], given) by {
            assert(back[j] == GpuAction::Record { buffer, command: stream[j] });
            if j < 6 {
                assert(stream[j] == start[j]);
            } else if j < 6 + draws.len() {
                assert(stream[j] == draws[j - 6]);
                assert(is_draw(stream[j]));
            } else {
                assert(stream[j] == stream_end()[j - 6 - draws.len()]);
            }
        }
        lemma_all_agree_concat(
            recordings((count - 1) as nat, extent, renderables),
            back,
            given,
        );
    }
}

/// Law: everything that is created for a new renderer agrees with what it was
/// given: the render pass with the formats and sample counts of the swapchain and
/// of its textures, the pipeline with the size of the images, each framebuffer
/// with its image, each descriptor set with its buffer.
pub proof fn law_creation_agrees_with_what_was_given(
    setup: SwapchainDesc,
    swapchain: SwapchainWrapper,
    vertex_input: VertexInput,
    uniform: DescriptorSetLayoutBinding,
    uniform_size: u64,
)
    ensures
        all_agree(
            creation_actions(setup, swapchain, vertex_input, uniform, uniform_size),
            Given {
                families: setup.queue_families_indices,
                swapchain,
                msaa_samples: setup.msaa_samples,
                depth_format: setup.depth_format,
                vertex_input,
                uniform,
                uniform_size,
            },
        ),
{
    let given = Given {
        families: setup.queue_families_indices,
        swapchain,
        msaa_samples: setup.msaa_samples,
        depth_format: setup.depth_format,
        vertex_input,
        uniform,
        uniform_size,
    };
    let all = creation_actions(setup, swapchain, vertex_input, uniform, uniform_size);
    let extent = swapchain.properties.extent;
    let images = swapchain.images as int;
    let pipeline = pipeline_actions(extent, setup.msaa_samples, vertex_input);
    lemma_pipeline_agrees(given);
    assert(all_agree(framebuffer_actions(swapchain.images, extent), given));
    assert(all_agree(sync_actions(3), given));
    assert(all_agree(uniform_buffer_actions(3, uniform_size), given));
    assert(all_agree(uniform_write_actions(3, uniform_size), given));
    assert(all_agree(map_actions(3, uniform_size), given));
    assert(all.len() == 25 + images);
    assert forall|k: int| 0 <= k < all.len() implies agrees(#[trigger] all[k], given) by {
        if 2 <= k < 7 {
            assert(all[k] == pipeline[k - 2]);
        } else if 8 <= k < 8 + images {
            assert(all[k] == framebuffer_actions(swapchain.images, extent)[k - 8]);
        } else if 8 + images <= k < 11 + images {
            assert(all[k] == sync_actions(3)[k - 8 - images]);
        } else if 11 + images <= k < 14 + images {
            assert(all[k] == uniform_buffer_actions(3, uniform_size)[k - 11 - images]);
        } else if 17 + images <= k < 20 + images {
            assert(all[k] == uniform_write_actions(3, uniform_size)[k - 17 - images]);
        } else if 20 + images <= k < 23 + images {
            assert(all[k] == map_actions(3, uniform_size)[k - 20 - images]);
        }
    }
}

/// What a rebuilt renderer was given.
pub open spec fn given_to<T: UBO + Copy>(
    before: RenderInstance<T>,
    swapchain: SwapchainWrapper,
    uniform: DescriptorSetLayoutBinding,
    uniform_size: u64,
) -> Given {
    Given {
        families: before.queue_families_indices,
        swapchain,
        msaa_samples: before.msaa_samples,
        depth_format: before.depth_format,
        vertex_input: before.vertex_input,
        uniform,
        uniform_size,
    }
}

/// All requests of a rebuild, in order.
pub open spec fn rebuild_actions<T: UBO + Copy>(
    before: RenderInstance<T>,
    dimensions: Extent2D,
    swapchain: SwapchainWrapper,
) -> Seq<GpuAction> {
    replace_swapchain_actions(
        before.framebuffers,
        before.command_buffers,
        before.swapchain_setup(dimensions),
    ) + restore_actions(
        swapchain,
        before.msaa_samples,
        before.depth_format,
        before.vertex_input,
        before.renderables@,
    )
}

/// The second half of a rebuild agrees.
proof fn lemma_restore_agrees(renderables: Seq<Renderable>, given: Given)
    ensures
        all_agree(
            restore_actions(
                given.swapchain,
                given.msaa_samples,
                given.depth_format,
                given.vertex_input,
                renderables,
            ),
            given,
        ),
{
    let all = restore_actions(
        given.swapchain,
        given.msaa_samples,
        given.depth_format,
        given.vertex_input,
        renderables,
    );
    let extent = given.swapchain.properties.extent;
    let images = given.swapchain.images as int;
    let pipeline = pipeline_actions(extent, given.msaa_samples, given.vertex_input);
    let recorded_all = recordings(given.swapchain.images as nat, extent, renderables);
    lemma_pipeline_agrees(given);
    lemma_recordings_agree(given.swapchain.images as nat, renderables, given);
    assert(all_agree(framebuffer_actions(given.swapchain.images, extent), given));
    assert forall|k: int| 0 <= k < all.len() implies agrees(#[trigger] all[k], given) by {
        if 1 <= k < 6 {
            assert(all[k] == pipeline[k - 1]);
        } else if 6 <= k < 6 + images {
            assert(all[k] == framebuffer_actions(given.swapchain.images, extent)[k - 6]);
        } else if k > 6 + images {
            assert(all[k] == recorded_all[k - 7 - images]);
        }
    }
}

/// Law: everything that a rebuild asks for agrees with what the renderer was
/// given and with the new swapchain: the render pass has the format of the new
/// images for color and resolve and the depth format of the renderer for depth,
/// the formats that the new swapchain and its textures are asked for with; the
/// new swapchain has the wanted size.
pub proof fn law_rebuild_agrees_with_the_new_swapchain<T: UBO + Copy>(
    before: RenderInstance<T>,
    dimensions: Extent2D,
    swapchain: SwapchainWrapper,
    uniform: DescriptorSetLayoutBinding,
    uniform_size: u64,
)
    ensures
        all_agree(
            rebuild_actions(before, dimensions, swapchain),
            given_to(before, swapchain, uniform, uniform_size),
        ),
        forall|k: int|
            0 <= k < rebuild_actions(before, dimensions, swapchain).len() ==> (
            #[trigger] rebuild_actions(
                before,
                dimensions,
                swapchain,
            )[k] matches GpuAction::CreateSwapchain(desc) ==> desc.dimensions == dimensions),
{
    let given = given_to(before, swapchain, uniform, uniform_size);
    let setup = before.swapchain_setup(dimensions);
    let first = replace_swapchain_actions(before.framebuffers, before.command_buffers, setup);
    let cleanup = cleanup_actions(before.framebuffers, before.command_buffers);
    let second = restore_actions(
        swapchain,
        before.msaa_samples,
        before.depth_format,
        before.vertex_input,
        before.renderables@,
    );
    assert forall|k: int| 0 <= k < cleanup.len() implies agrees(#[trigger] cleanup[k], given)
        && !(cleanup[k] is CreateSwapchain) by {
        if k < before.framebuffers {
            assert(cleanup[k] is DestroyFramebuffer);
        }
    }
    assert forall|k: int| 0 <= k < first.len() implies agrees(#[trigger] first[k], given) && (
    first[k] matches GpuAction::CreateSwapchain(desc) ==> desc.dimensions == dimensions) by {
        if 2 <= k < 2 + cleanup.len() {
            assert(first[k] == cleanup[k - 2]);
        }
    }
    lemma_restore_agrees(before.renderables@, given);
    lemma_all_agree_concat(first, second, given);
    let all = rebuild_actions(before, dimensions, swapchain);
    lemma_restore_makes_no_swapchain(
        swapchain,
        before.msaa_samples,
        before.depth_format,
        before.vertex_input,
        before.renderables@,
    );
    assert forall|k: int| 0 <= k < all.len() implies (
    #[trigger] all[k] matches GpuAction::CreateSwapchain(desc) ==> desc.dimensions
        == dimensions) by {
        if k < first.len() {
            assert(all[k] == first[k]);
        } else {
            assert(all[k] == second[k - first.len()]);
        }
    }
}

/// The second half of a rebuild asks for no swapchain.
proof fn lemma_restore_makes_no_swapchain(
    swapchain: SwapchainWrapper,
    msaa_samples: u32,
    depth_format: i32,
    vertex_input: VertexInput,
    renderables: Seq<Renderable>,
)
    ensures
        ({
            let all = restore_actions(
                swapchain,
                msaa_samples,
                depth_format,
                vertex_input,
                renderables,
            );
            forall|k: int| 0 <= k < all.len() ==> !(#[trigger] all[k] is CreateSwapchain)
        }),
{
    let all = restore_actions(swapchain, msaa_samples, depth_format, vertex_input, renderables);
    let extent = swapchain.properties.extent;
    let images = swapchain.images as int;
    let recorded_all = recordings(swapchain.images as nat, extent, renderables);
    law_recordings_keep_to_their_buffer(swapchain.images as nat, extent, renderables);
    assert forall|k: int| 0 <= k < all.len() implies !(#[trigger] all[k] is CreateSwapchain) by {
        if 1 <= k < 6 {
            assert(all[k] == pipeline_actions(extent, msaa_samples, vertex_input)[k - 1]);
        } else if 6 <= k < 6 + images {
            assert(all[k] == framebuffer_actions(swapchain.images, extent)[k - 6]);
        } else if k > 6 + images {
            assert(all[k] == recorded_all[k - 7 - images]);
            assert(recorded_all[k - 7 - images] is Record);
        }
    }
}

/// Law: a render pass and a framebuffer of lists that agree with what the renderer
/// was given fit together: every attachment has the format and the sample count
/// of the image behind the view attached to it.
pub proof fn law_render_pass_takes_the_views_attached_to_it(
    actions: Seq<GpuAction>,
    given: Given,
    k: int,
    j: int,
)
    requires
        all_agree(actions, given),
        0 <= k < actions.len(),
        actions[k] is CreateRenderPass,
        0 <= j < actions.len(),
        actions[j] is CreateFramebuffer,
    ensures
        takes_views(actions[k]->CreateRenderPass_0, actions[j]->CreateFramebuffer_desc, given),
{
    assert(agrees(actions[k], given) && agrees(actions[j], given));
}

/// Law: a rebuild has one render pass and a framebuffer for each image of the new
/// swapchain, and fits them together.
pub proof fn law_rebuild_fits_its_framebuffers<T: UBO + Copy>(
    before: RenderInstance<T>,
    dimensions: Extent2D,
    swapchain: SwapchainWrapper,
    uniform: DescriptorSetLayoutBinding,
    uniform_size: u64,
    i: u32,
)
    requires
        i < swapchain.images,
    ensures
        ({
            let all = rebuild_actions(before, dimensions, swapchain);
            let given = given_to(before, swapchain, uniform, uniform_size);
            exists|k: int, j: int|
                {
                    &&& 0 <= k < all.len() && #[trigger] all[k] is CreateRenderPass
                    &&& 0 <= j < all.len() && #[trigger] all[j] is CreateFramebuffer
                    &&& all[j]->CreateFramebuffer_index == i
                    &&& shows_image(all[j]->CreateFramebuffer_desc, i, given)
                    &&& takes_views(
                        all[k]->CreateRenderPass_0,
                        all[j]->CreateFramebuffer_desc,
                        given,
                    )
                }
        }),
{
    let all = rebuild_actions(before, dimensions, swapchain);
    let given = given_to(before, swapchain, uniform, uniform_size);
    law_rebuild_agrees_with_the_new_swapchain(before, dimensions, swapchain, uniform, uniform_size);
    let first = replace_swapchain_actions(
        before.framebuffers,
        before.command_buffers,
        before.swapchain_setup(dimensions),
    );
    let second = restore_actions(
        swapchain,
        before.msaa_samples,
        before.depth_format,
        before.vertex_input,
        before.renderables@,
    );
    let k = first.len() as int;
    let j = k + 6 + i;
    assert(all[k] == second[0]);
    assert(all[j] == second[6 + i]);
    assert(second[6 + i] == framebuffer_actions(
        swapchain.images,
        swapchain.properties.extent,
    )[i as int]);
    law_render_pass_takes_the_views_attached_to_it(all, given, k, j);
    assert(agrees(all[j], given));
}

/// Law: in the requests of a rebuild, whatever the order, the render pass is the
/// one for the depth format and the sample count that the swapchain is asked for
/// with, and for the format of the images that came back.
pub proof fn law_render_pass_has_the_formats_of_the_swapchain<T: UBO + Copy>(
    before: RenderInstance<T>,
    dimensions: Extent2D,
    swapchain: SwapchainWrapper,
    uniform: DescriptorSetLayoutBinding,
    uniform_size: u64,
    k: int,
    j: int,
)
    requires
        0 <= k < rebuild_actions(before, dimensions, swapchain).len(),
        rebuild_actions(before, dimensions, swapchain)[k] is CreateSwapchain,
        0 <= j < rebuild_actions(before, dimensions, swapchain).len(),
        rebuild_actions(before, dimensions, swapchain)[j] is CreateRenderPass,
    ensures
        ({
            let all = rebuild_actions(before, dimensions, swapchain);
            let wanted = all[k]->CreateSwapchain_0;
            let pass = all[j]->CreateRenderPass_0;
            &&& pass.depth.format == wanted.depth_format
            &&& pass.depth.samples == wanted.msaa_samples
            &&& pass.color.samples == wanted.msaa_samples
            &&& pass.color.format == swapchain.properties.format
            &&& pass.resolve.format == swapchain.properties.format
        }),
{
    let all = rebuild_actions(before, dimensions, swapchain);
    let given = given_to(before, swapchain, uniform, uniform_size);
    law_rebuild_agrees_with_the_new_swapchain(before, dimensions, swapchain, uniform, uniform_size);
    assert(agrees(all[k], given) && agrees(all[j], given));
}

/// Law: every descriptor set of a new renderer is pointed at its uniform buffer,
/// which is as large as the uniform data and mapped as a whole.
pub proof fn law_every_set_gets_its_uniform_buffer(
    setup: SwapchainDesc,
    swapchain: SwapchainWrapper,
    vertex_input: VertexInput,
    uniform: DescriptorSetLayoutBinding,
    uniform_size: u64,
    set: u32,
)
    requires
        set < 3,
    ensures
        ({
            let all = creation_actions(setup, swapchain, vertex_input, uniform, uniform_size);
            &&& exists|k: int|
                0 <= k < all.len() && (#[trigger] all[k] matches GpuAction::CreateUniformBuffer {
                    index,
                    memory,
                } && index == set && memory.size == uniform_size)
            &&& exists|k: int|
                0 <= k < all.len() && (#[trigger] all[k] matches GpuAction::WriteUniform(write)
                    && write.set == set && write.buffer == set && write.range == uniform_size)
            &&& exists|k: int|
                0 <= k < all.len() && (#[trigger] all[k] matches GpuAction::MapUniformBuffer {
                    index,
                    size,
                    ..
                } && index == set && size == uniform_size)
        }),
{
    let all = creation_actions(setup, swapchain, vertex_input, uniform, uniform_size);
    let images = swapchain.images as int;
    assert(all[11 + images + set] == uniform_buffer_actions(3, uniform_size)[set as int]);
    assert(all[17 + images + set] == uniform_write_actions(3, uniform_size)[set as int]);
    assert(all[20 + images + set] == map_actions(3, uniform_size)[set as int]);
    assert(all[11 + images + set] is CreateUniformBuffer);
    assert(all[17 + images + set] is WriteUniform);
    assert(all[20 + images + set] is MapUniformBuffer);
}

/// Law: a texture is created once and then written to every descriptor set, at
/// its own index, so that every command buffer finds it there.
pub proof fn law_every_set_gets_the_texture(sets: u32, texture: u32, set: u32)
    requires
        set < sets,
    ensures
        ({
            let all = texture_actions(sets, texture);
            &&& all[0] == (GpuAction::CreateTexture { index: texture })
            &&& forall|k: int|
                1 <= k < all.len() ==> (#[trigger] all[k] matches GpuAction::WriteTexture(write)
                    && points_at_its_texture(write) && write.texture == texture && write.set < sets)
            &&& exists|k: int|
                1 <= k < all.len() && (#[trigger] all[k] matches GpuAction::WriteTexture(write)
                    && write.set == set && write.array_element == texture && write.texture
                    == texture)
            &&& forall|k: int, j: int|
                1 <= k < j < all.len() ==> #[trigger] all[k] != #[trigger] all[j]
        }),
{
    let all = texture_actions(sets, texture);
    assert(all[1 + set] is WriteTexture);
    assert forall|k: int, j: int| 1 <= k < j < all.len() implies #[trigger] all[k]
        != #[trigger] all[j] by {
        assert(all[k]->WriteTexture_0.set == k - 1);
        assert(all[j]->WriteTexture_0.set == j - 1);
    }
}

/// Law: a rebuild waits for the device before it destroys anything. It then destroys
/// the swapchain, every framebuffer, the command buffers, the pipeline with its layout
/// and the render pass, and asks for the new swapchain when all that is gone.
pub proof fn law_rebuild_waits_before_it_destroys(
    framebuffers: u32,
    command_buffers: u32,
    setup: SwapchainDesc,
    actions: Vec<GpuAction>,
)
    requires
        call_ensures(replace_swapchain_plan, (framebuffers, command_buffers, setup), actions),
    ensures
        ({
            let all = actions@;
            let n = 2 + framebuffers;
            &&& all.len() == n + 5
            &&& all[0] is WaitIdle
            &&& all[1] is DestroySwapchain
            &&& forall|k: int|
                2 <= k < n ==> #[trigger] all[k] == (GpuAction::DestroyFramebuffer {
                    index: (k - 2) as u32,
                })
            &&& all[n] == (GpuAction::FreeCommandBuffers { count: command_buffers })
            &&& all[n + 1] is DestroyPipeline
            &&& all[n + 2] is DestroyPipelineLayout
            &&& all[n + 3] is DestroyRenderPass
            &&& all[n + 4] == GpuAction::CreateSwapchain(setup)
        }),
{
    let all = actions@;
    let cleanup = cleanup_actions(framebuffers, command_buffers);
    assert forall|k: int| 2 <= k < 2 + framebuffers implies #[trigger] all[k] == (
    GpuAction::DestroyFramebuffer { index: (k - 2) as u32 }) by {
        assert(all[k] == cleanup[k - 2]);
    }
}

/// Law: what a rebuild asks the swapchain to be made with is what the renderer was
/// made with; only the size follows the window.
pub proof fn law_rebuild_keeps_the_setup<T: UBO + Copy>(
    instance: RenderInstance<T>,
    setup: SwapchainDesc,
    swapchain: SwapchainWrapper,
    vertex_input: VertexInput,
    dimensions: Extent2D,
)
    requires
        instance.is_new(setup, swapchain, vertex_input),
    ensures
        instance.swapchain_setup(setup.dimensions) == setup,
        instance.swapchain_setup(dimensions).dimensions == dimensions,
        instance.swapchain_setup(dimensions) == (SwapchainDesc { dimensions, ..setup }),
{
}

/// Law: a pipeline that agrees with what the renderer was given can write every
/// position of every image, and a framebuffer has no other.
pub proof fn law_pipeline_covers_the_framebuffers(
    pipeline: PipelineDesc,
    framebuffer: FramebufferDesc,
    index: u32,
    given: Given,
    x: int,
    y: int,
)
    requires
        agrees(GpuAction::CreatePipeline(pipeline), given),
        agrees(GpuAction::CreateFramebuffer { index, desc: framebuffer }, given),
    ensures
        is_inside(pipeline, x, y) <==> (0 <= x < framebuffer.width && 0 <= y < framebuffer.height),
{
}

/// Law: a planned render pass has the format of the images for color and resolve and
/// the depth format for depth, is multisampled but for what it resolves into, starts
/// from cleared attachments and leaves an image to present.
pub proof fn law_planned_render_pass_keeps_formats_apart(
    format: i32,
    msaa_samples: u32,
    depth_format: i32,
    pass: RenderPassDesc,
)
    requires
        call_ensures(render_pass_desc, (format, msaa_samples, depth_format), pass),
    ensures
        pass.color.format == format,
        pass.resolve.format == format,
        pass.depth.format == depth_format,
        pass.color.samples == msaa_samples,
        pass.depth.samples == msaa_samples,
        pass.resolve.samples == 1,
        clears_and_presents(pass),
        has_one_graphics_subpass(pass),
{
}

/// Law: the requests that a new renderer is planned with agree with what it is given.
pub proof fn law_planned_creation_agrees(
    setup: SwapchainDesc,
    swapchain: SwapchainWrapper,
    vertex_input: VertexInput,
    uniform: DescriptorSetLayoutBinding,
    uniform_size: u64,
    actions: Vec<GpuAction>,
)
    requires
        call_ensures(
            creation_plan,
            (setup, swapchain, vertex_input, uniform, uniform_size),
            actions,
        ),
    ensures
        all_agree(
            actions@,
            Given {
                families: setup.queue_families_indices,
                swapchain,
                msaa_samples: setup.msaa_samples,
                depth_format: setup.depth_format,
                vertex_input,
                uniform,
                uniform_size,
            },
        ),
{
    law_creation_agrees_with_what_was_given(
        setup,
        swapchain,
        vertex_input,
        uniform,
        uniform_size,
    );
}

/// Law: the requests that finish a rebuild agree with the new swapchain: there is one
/// render pass, its color and resolve attachments have the format of the new images,
/// its depth attachment has the depth format, and it takes the views of each of the
/// framebuffers, one for every image.
pub proof fn law_planned_restore_agrees(
    renderables: Vec<Renderable>,
    given: Given,
    actions: Vec<GpuAction>,
    i: u32,
)
    requires
        call_ensures(
            restore_plan,
            (
                given.swapchain,
                given.msaa_samples,
                given.depth_format,
                given.vertex_input,
                &renderables,
            ),
            actions,
        ),
    ensures
        all_agree(actions@, given),
        actions@.len() > 0 && actions@[0] is CreateRenderPass,
        forall|k: int|
            0 <= k < actions@.len() && #[trigger] actions@[k] is CreateRenderPass ==> {
                let pass = actions@[k]->CreateRenderPass_0;
                &&& pass.color.format == given.swapchain.properties.format
                &&& pass.resolve.format == given.swapchain.properties.format
                &&& pass.depth.format == given.depth_format
                &&& pass.color.samples == given.msaa_samples
                &&& pass.depth.samples == given.msaa_samples
            },
        i < given.swapchain.images ==> exists|k: int|
            0 <= k < actions@.len() && (#[trigger] actions@[k] matches GpuAction::CreateFramebuffer {
                index,
                desc,
            } && index == i && shows_image(desc, i, given) && takes_views(
                actions@[0]->CreateRenderPass_0,
                desc,
                given,
            )),
{
    lemma_restore_agrees(renderables@, given);
    assert forall|k: int|
        0 <= k < actions@.len() && #[trigger] actions@[k] is CreateRenderPass implies {
        let pass = actions@[k]->CreateRenderPass_0;
        &&& pass.color.format == given.swapchain.properties.format
        &&& pass.resolve.format == given.swapchain.properties.format
        &&& pass.depth.format == given.depth_format
        &&& pass.color.samples == given.msaa_samples
        &&& pass.depth.samples == given.msaa_samples
    } by {
        assert(agrees(actions@[k], given));
    }
    if i < given.swapchain.images {
        let k = 6 + i;
        assert(actions@[k] == framebuffer_actions(
            given.swapchain.images,
            given.swapchain.properties.extent,
        )[i as int]);
        assert(actions@[k] is CreateFramebuffer);
        assert(agrees(actions@[k], given) && agrees(actions@[0], given));
    }
}

/// Law: a new renderer is created with requests that agree with what it is given and
/// with the binding that its uniform data has for the shaders.
pub proof fn law_created_renderer_agrees<T: UBO + Copy>(
    setup: SwapchainDesc,
    swapchain: SwapchainWrapper,
    vertex_input: VertexInput,
    created: Result<(RenderInstance<T>, Vec<GpuAction>), SetupError>,
)
    requires
        call_ensures(RenderInstance::<T>::create, (setup, swapchain, vertex_input), created),
    ensures
        created is Ok,
        exists|uniform: DescriptorSetLayoutBinding| #[trigger]
            all_agree(
                created->Ok_0.1@,
                given_to(
                    created->Ok_0.0,
                    swapchain,
                    uniform,
                    vstd::layout::size_of::<T>() as u64,
                ),
            ) && call_ensures(T::get_descriptor_set_layout_binding, (), uniform),
{
    let size = vstd::layout::size_of::<T>() as u64;
    let actions = created->Ok_0.1@;
    let uniform = choose|uniform: DescriptorSetLayoutBinding|
        {
            &&& call_ensures(T::get_descriptor_set_layout_binding, (), uniform)
            &&& actions == #[trigger] creation_actions(
                setup,
                swapchain,
                vertex_input,
                uniform,
                size,
            )
        };
    law_creation_agrees_with_what_was_given(setup, swapchain, vertex_input, uniform, size);
    assert(all_agree(actions, given_to(created->Ok_0.0, swapchain, uniform, size)));
}

/// Law: a new renderer gets a framebuffer for each image of its swapchain, which its
/// render pass takes, and semaphores and a fence for each of three frames.
pub proof fn law_creation_makes_one_of_each(
    setup: SwapchainDesc,
    swapchain: SwapchainWrapper,
    vertex_input: VertexInput,
    uniform: DescriptorSetLayoutBinding,
    uniform_size: u64,
    image: u32,
    frame: u32,
)
    requires
        image < swapchain.images,
        frame < 3,
    ensures
        ({
            let all = creation_actions(setup, swapchain, vertex_input, uniform, uniform_size);
            let given = Given {
                families: setup.queue_families_indices,
                swapchain,
                msaa_samples: setup.msaa_samples,
                depth_format: setup.depth_format,
                vertex_input,
                uniform,
                uniform_size,
            };
            &&& all[0] is CreateRenderPass
            &&& exists|k: int|
                0 <= k < all.len() && (#[trigger] all[k] matches GpuAction::CreateFramebuffer {
                    index,
                    desc,
                } && index == image && shows_image(desc, image, given) && takes_views(
                    all[0]->CreateRenderPass_0,
                    desc,
                    given,
                ))
            &&& exists|k: int|
                0 <= k < all.len() && #[trigger] all[k] == (GpuAction::CreateSyncObjects {
                    index: frame,
                })
        }),
{
    let all = creation_actions(setup, swapchain, vertex_input, uniform, uniform_size);
    let images = swapchain.images as int;
    let extent = swapchain.properties.extent;
    assert(all[8 + image] == framebuffer_actions(swapchain.images, extent)[image as int]);
    assert(all[8 + image] is CreateFramebuffer);
    assert(all[8 + images + frame] == sync_actions(3)[frame as int]);
}

} // verus!
