//! The lists of requests that bring the renderer up, rebuild what depends on
//! the swapchain, and take everything down again.

use vstd::prelude::*;

use crate::actions::GpuAction;
use crate::descriptors::{
    descriptor_pool_desc, descriptor_pool_for, descriptor_set_layout_desc,
    descriptor_set_layout_for, index_buffer_desc, index_buffer_whole, sampler_desc,
    texture_sampler, texture_write, texture_write_for, uniform_buffer_desc, uniform_buffer_for,
    uniform_write, uniform_write_for, vertex_buffer_desc, vertex_buffer_whole,
    DescriptorSetLayoutBinding, MAX_FRAMES_IN_FLIGHT, UNIFORM_ALIGNMENT,
};
use crate::pipeline::{pipeline_desc, pipeline_for, shader_stage, stage_for, Shader, VertexInput};
use crate::recording::{command_stream, drawable, record_commands, Command};
use crate::scene::{Renderable, Texture};
use crate::targets::{
    framebuffer_desc, framebuffer_for, render_pass_desc, render_pass_for, SwapchainDesc,
    SwapchainWrapper,
};
use crate::vulkan::{Extent2D, COMMAND_BUFFER_LEVEL_PRIMARY, COMMAND_POOL_CREATE_TRANSIENT};

verus! {

/// A framebuffer for each of `images` swapchain images.
pub open spec fn framebuffer_actions(images: u32, extent: Extent2D) -> Seq<GpuAction> {
    Seq::new(
        images as nat,
        |i: int|
            GpuAction::CreateFramebuffer {
                index: i as u32,
                desc: framebuffer_for(i as u32, extent),
            },
    )
}

/// The semaphores and fences of `count` frames.
pub open spec fn sync_actions(count: u32) -> Seq<GpuAction> {
    Seq::new(count as nat, |i: int| GpuAction::CreateSyncObjects { index: i as u32 })
}

/// `count` uniform buffers of `size` bytes.
pub open spec fn uniform_buffer_actions(count: u32, size: u64) -> Seq<GpuAction> {
    Seq::new(
        count as nat,
        |i: int|
            GpuAction::CreateUniformBuffer { index: i as u32, memory: uniform_buffer_for(size) },
    )
}

/// A write of the uniform buffer of each of `count` descriptor sets.
pub open spec fn uniform_write_actions(count: u32, size: u64) -> Seq<GpuAction> {
    Seq::new(count as nat, |i: int| GpuAction::WriteUniform(uniform_write_for(i as u32, size)))
}

/// The mapping of each of `count` uniform buffers.
pub open spec fn map_actions(count: u32, size: u64) -> Seq<GpuAction> {
    Seq::new(
        count as nat,
        |i: int|
            GpuAction::MapUniformBuffer {
                index: i as u32,
                offset: 0,
                size,
                alignment: UNIFORM_ALIGNMENT,
            },
    )
}

/// The pipeline, with the shader modules that are there only while it is made.
pub open spec fn pipeline_actions(
    extent: Extent2D,
    msaa_samples: u32,
    vertex_input: VertexInput,
) -> Seq<GpuAction> {
    seq![
        GpuAction::CreateShaderModule {
            shader: Shader::Vertex,
            path: stage_for(Shader::Vertex).path,
        },
        GpuAction::CreateShaderModule {
            shader: Shader::Fragment,
            path: stage_for(Shader::Fragment).path,
        },
        GpuAction::CreatePipeline(pipeline_for(extent, msaa_samples, vertex_input)),
        GpuAction::DestroyShaderModule { shader: Shader::Vertex },
        GpuAction::DestroyShaderModule { shader: Shader::Fragment },
    ]
}

/// Everything that is created once the swapchain is there.
pub open spec fn creation_actions(
    setup: SwapchainDesc,
    swapchain: SwapchainWrapper,
    vertex_input: VertexInput,
    uniform: DescriptorSetLayoutBinding,
    uniform_size: u64,
) -> Seq<GpuAction> {
    let properties = swapchain.properties;
    seq![
        GpuAction::CreateRenderPass(
            render_pass_for(properties.format, setup.msaa_samples, setup.depth_format),
        ),
        GpuAction::CreateDescriptorSetLayout(descriptor_set_layout_for(uniform)),
    ] + pipeline_actions(properties.extent, setup.msaa_samples, vertex_input) + seq![
        GpuAction::CreateTransferCommandPool {
            queue_family_index: setup.queue_families_indices.transfer_index,
            flags: COMMAND_POOL_CREATE_TRANSIENT,
        },
    ] + framebuffer_actions(swapchain.images, properties.extent) + sync_actions(
        MAX_FRAMES_IN_FLIGHT,
    ) + uniform_buffer_actions(MAX_FRAMES_IN_FLIGHT, uniform_size) + seq![
        GpuAction::CreateSampler(texture_sampler()),
        GpuAction::CreateDescriptorPool(descriptor_pool_for(MAX_FRAMES_IN_FLIGHT)),
        GpuAction::AllocateDescriptorSets { count: MAX_FRAMES_IN_FLIGHT },
    ] + uniform_write_actions(MAX_FRAMES_IN_FLIGHT, uniform_size) + map_actions(
        MAX_FRAMES_IN_FLIGHT,
        uniform_size,
    ) + seq![
        GpuAction::CreateVertexBuffer(vertex_buffer_whole()),
        GpuAction::CreateIndexBuffer(index_buffer_whole()),
    ]
}

/// The creation of texture `texture`, then its write to each descriptor set.
pub open spec fn texture_actions(sets: u32, texture: u32) -> Seq<GpuAction> {
    seq![GpuAction::CreateTexture { index: texture }] + Seq::new(
        sets as nat,
        |i: int| GpuAction::WriteTexture(texture_write_for(i as u32, texture)),
    )
}

/// The destruction of what depends on the swapchain.
pub open spec fn cleanup_actions(framebuffers: u32, command_buffers: u32) -> Seq<GpuAction> {
    Seq::new(
        framebuffers as nat,
        |i: int| GpuAction::DestroyFramebuffer { index: i as u32 },
    ) + seq![
        GpuAction::FreeCommandBuffers { count: command_buffers },
        GpuAction::DestroyPipeline,
        GpuAction::DestroyPipelineLayout,
        GpuAction::DestroyRenderPass,
    ]
}

/// The first half of a rebuild: the old swapchain goes, a new one is asked for.
pub open spec fn replace_swapchain_actions(
    framebuffers: u32,
    command_buffers: u32,
    setup: SwapchainDesc,
) -> Seq<GpuAction> {
    seq![GpuAction::WaitIdle, GpuAction::DestroySwapchain] + cleanup_actions(
        framebuffers,
        command_buffers,
    ) + seq![GpuAction::CreateSwapchain(setup)]
}

/// The recording of a list of commands into a command buffer.
pub open spec fn recorded(buffer: u32, commands: Seq<Command>) -> Seq<GpuAction> {
    commands.map_values(|command: Command| GpuAction::Record { buffer, command })
}

/// The recording of the first `count` command buffers.
pub open spec fn recordings(
    count: nat,
    extent: Extent2D,
    renderables: Seq<Renderable>,
) -> Seq<GpuAction>
    decreases count,
{
    if count == 0 {
        Seq::empty()
    } else {
        let buffer = (count - 1) as u32;
        recordings((count - 1) as nat, extent, renderables) + recorded(
            buffer,
            command_stream(buffer, extent, renderables),
        )
    }
}

/// The second half of a rebuild: what depends on the new swapchain, and a
/// command buffer for each framebuffer.
pub open spec fn restore_actions(
    swapchain: SwapchainWrapper,
    msaa_samples: u32,
    depth_format: i32,
    vertex_input: VertexInput,
    renderables: Seq<Renderable>,
) -> Seq<GpuAction> {
    let properties = swapchain.properties;
    seq![
        GpuAction::CreateRenderPass(render_pass_for(properties.format, msaa_samples, depth_format)),
    ] + pipeline_actions(properties.extent, msaa_samples, vertex_input) + framebuffer_actions(swapchain.images, properties.extent) + seq![
        GpuAction::AllocateCommandBuffers {
            count: swapchain.images,
            level: COMMAND_BUFFER_LEVEL_PRIMARY,
        },
    ] + recordings(swapchain.images as nat, properties.extent, renderables)
}

/// The textures of the renderables, in order.
pub open spec fn scene_textures(renderables: Seq<Renderable>) -> Seq<Texture>
    decreases renderables.len(),
{
    if renderables.len() == 0 {
        Seq::empty()
    } else if renderables.last().texture is Some {
        scene_textures(renderables.drop_last()).push(renderables.last().texture->Some_0)
    } else {
        scene_textures(renderables.drop_last())
    }
}

/// The destruction of textures.
pub open spec fn texture_releases(textures: Seq<Texture>) -> Seq<GpuAction> {
    textures.map_values(|texture: Texture| GpuAction::DestroyTexture { index: texture.0 })
}

/// The unmapping and destruction of `count` uniform buffers.
pub open spec fn uniform_releases(count: nat) -> Seq<GpuAction>
    decreases count,
{
    if count == 0 {
        Seq::empty()
    } else {
        uniform_releases((count - 1) as nat) + seq![
            GpuAction::UnmapUniformBuffer { index: (count - 1) as u32 },
            GpuAction::DestroyUniformBuffer { index: (count - 1) as u32 },
        ]
    }
}

/// The destruction of everything.
pub open spec fn teardown_actions(
    renderables: Seq<Renderable>,
    framebuffers: u32,
    command_buffers: u32,
    descriptor_sets: u32,
) -> Seq<GpuAction> {
    texture_releases(scene_textures(renderables)) + seq![GpuAction::DestroySwapchain]
        + cleanup_actions(framebuffers, command_buffers) + seq![
        GpuAction::DestroySyncObjects { count: MAX_FRAMES_IN_FLIGHT },
        GpuAction::DestroySampler,
        GpuAction::DestroyDescriptorPool { sets: descriptor_sets },
        GpuAction::DestroyDescriptorSetLayout,
    ] + uniform_releases(MAX_FRAMES_IN_FLIGHT as nat) + seq![
        GpuAction::DestroyIndexBuffer,
        GpuAction::DestroyVertexBuffer,
        GpuAction::DestroyTransferCommandPool,
        GpuAction::DestroyGraphicsCommandPool,
    ]
}

/// Appends a framebuffer for each swapchain image.
fn push_framebuffers(actions: &mut Vec<GpuAction>, images: u32, extent: Extent2D)
    ensures
        final(actions)@ == old(actions)@ + framebuffer_actions(images, extent),
{
    let mut i: u32 = 0;
    let ghost wanted = framebuffer_actions(images, extent);
    assert(actions@ =~= old(actions)@ + wanted.take(0));
    while i < images
        invariant
            i <= images,
            wanted == framebuffer_actions(images, extent),
            actions@ == old(actions)@ + wanted.take(i as int),
        decreases images - i,
    {
        actions.push(
            GpuAction::CreateFramebuffer { index: i, desc: framebuffer_desc(i, extent) },
        );
        assert(actions@ =~= old(actions)@ + wanted.take(i + 1));
        i = i + 1;
    }
    assert(wanted.take(images as int) =~= wanted);
}

/// Appends the semaphores and fences of `count` frames.
fn push_sync_objects(actions: &mut Vec<GpuAction>, count: u32)
    ensures
        final(actions)@ == old(actions)@ + sync_actions(count),
{
    let mut i: u32 = 0;
    let ghost wanted = sync_actions(count);
    assert(actions@ =~= old(actions)@ + wanted.take(0));
    while i < count
        invariant
            i <= count,
            wanted == sync_actions(count),
            actions@ == old(actions)@ + wanted.take(i as int),
        decreases count - i,
    {
        actions.push(GpuAction::CreateSyncObjects { index: i });
        assert(actions@ =~= old(actions)@ + wanted.take(i + 1));
        i = i + 1;
    }
    assert(wanted.take(count as int) =~= wanted);
}

/// Appends `count` uniform buffers.
fn push_uniform_buffers(actions: &mut Vec<GpuAction>, count: u32, size: u64)
    ensures
        final(actions)@ == old(actions)@ + uniform_buffer_actions(count, size),
{
    let mut i: u32 = 0;
    let ghost wanted = uniform_buffer_actions(count, size);
    assert(actions@ =~= old(actions)@ + wanted.take(0));
    while i < count
        invariant
            i <= count,
            wanted == uniform_buffer_actions(count, size),
            actions@ == old(actions)@ + wanted.take(i as int),
        decreases count - i,
    {
        actions.push(
            GpuAction::CreateUniformBuffer { index: i, memory: uniform_buffer_desc(size) },
        );
        assert(actions@ =~= old(actions)@ + wanted.take(i + 1));
        i = i + 1;
    }
    assert(wanted.take(count as int) =~= wanted);
}

/// Appends the uniform writes of `count` descriptor sets.
fn push_uniform_writes(actions: &mut Vec<GpuAction>, count: u32, size: u64)
    ensures
        final(actions)@ == old(actions)@ + uniform_write_actions(count, size),
{
    let mut i: u32 = 0;
    let ghost wanted = uniform_write_actions(count, size);
    assert(actions@ =~= old(actions)@ + wanted.take(0));
    while i < count
        invariant
            i <= count,
            wanted == uniform_write_actions(count, size),
            actions@ == old(actions)@ + wanted.take(i as int),
        decreases count - i,
    {
        actions.push(GpuAction::WriteUniform(uniform_write(i, size)));
        assert(actions@ =~= old(actions)@ + wanted.take(i + 1));
        i = i + 1;
    }
    assert(wanted.take(count as int) =~= wanted);
}

/// Appends the mappings of `count` uniform buffers.
fn push_maps(actions: &mut Vec<GpuAction>, count: u32, size: u64)
    ensures
        final(actions)@ == old(actions)@ + map_actions(count, size),
{
    let mut i: u32 = 0;
    let ghost wanted = map_actions(count, size);
    assert(actions@ =~= old(actions)@ + wanted.take(0));
    while i < count
        invariant
            i <= count,
            wanted == map_actions(count, size),
            actions@ == old(actions)@ + wanted.take(i as int),
        decreases count - i,
    {
        actions.push(
            GpuAction::MapUniformBuffer { index: i, offset: 0, size, alignment: UNIFORM_ALIGNMENT },
        );
        assert(actions@ =~= old(actions)@ + wanted.take(i + 1));
        i = i + 1;
    }
    assert(wanted.take(count as int) =~= wanted);
}

/// Appends the pipeline with its shader modules.
fn push_pipeline(
    actions: &mut Vec<GpuAction>,
    extent: Extent2D,
    msaa_samples: u32,
    vertex_input: VertexInput,
)
    ensures
        final(actions)@ == old(actions)@ + pipeline_actions(extent, msaa_samples, vertex_input),
{
    let vertex = shader_stage(Shader::Vertex);
    let fragment = shader_stage(Shader::Fragment);
    actions.push(GpuAction::CreateShaderModule { shader: Shader::Vertex, path: vertex.path });
    actions.push(GpuAction::CreateShaderModule { shader: Shader::Fragment, path: fragment.path });
    actions.push(GpuAction::CreatePipeline(pipeline_desc(extent, msaa_samples, vertex_input)));
    actions.push(GpuAction::DestroyShaderModule { shader: Shader::Vertex });
    actions.push(GpuAction::DestroyShaderModule { shader: Shader::Fragment });
    assert(actions@ =~= old(actions)@ + pipeline_actions(extent, msaa_samples, vertex_input));
}

/// Lists everything that is created once the swapchain is there, for uniform
/// data of `uniform_size` bytes.
pub fn creation_plan(
    setup: SwapchainDesc,
    swapchain: SwapchainWrapper,
    vertex_input: VertexInput,
    uniform: DescriptorSetLayoutBinding,
    uniform_size: u64,
) -> (actions: Vec<GpuAction>)
    ensures
        actions@ == creation_actions(setup, swapchain, vertex_input, uniform, uniform_size),
{
    let properties = swapchain.properties;
    let mut actions: Vec<GpuAction> = Vec::new();
    actions.push(
        GpuAction::CreateRenderPass(
            render_pass_desc(properties.format, setup.msaa_samples, setup.depth_format),
        ),
    );
    actions.push(GpuAction::CreateDescriptorSetLayout(descriptor_set_layout_desc(uniform)));
    push_pipeline(&mut actions, properties.extent, setup.msaa_samples, vertex_input);
    actions.push(
        GpuAction::CreateTransferCommandPool {
            queue_family_index: setup.queue_families_indices.transfer_index,
            flags: COMMAND_POOL_CREATE_TRANSIENT,
        },
    );
    push_framebuffers(&mut actions, swapchain.images, properties.extent);
    push_sync_objects(&mut actions, MAX_FRAMES_IN_FLIGHT);
    push_uniform_buffers(&mut actions, MAX_FRAMES_IN_FLIGHT, uniform_size);
    actions.push(GpuAction::CreateSampler(sampler_desc()));
    actions.push(GpuAction::CreateDescriptorPool(descriptor_pool_desc(MAX_FRAMES_IN_FLIGHT)));
    actions.push(GpuAction::AllocateDescriptorSets { count: MAX_FRAMES_IN_FLIGHT });
    push_uniform_writes(&mut actions, MAX_FRAMES_IN_FLIGHT, uniform_size);
    push_maps(&mut actions, MAX_FRAMES_IN_FLIGHT, uniform_size);
    actions.push(GpuAction::CreateVertexBuffer(vertex_buffer_desc()));
    actions.push(GpuAction::CreateIndexBuffer(index_buffer_desc()));
    assert(actions@ =~= creation_actions(setup, swapchain, vertex_input, uniform, uniform_size));
    actions
}

/// Lists the creation of a texture and its writes to the descriptor sets.
pub fn texture_plan(sets: u32, texture: u32) -> (actions: Vec<GpuAction>)
    ensures
        actions@ == texture_actions(sets, texture),
{
    let mut actions: Vec<GpuAction> = Vec::new();
    let ghost wanted = texture_actions(sets, texture);
    actions.push(GpuAction::CreateTexture { index: texture });
    let mut i: u32 = 0;
    assert(actions@ =~= wanted.take(1));
    while i < sets
        invariant
            i <= sets,
            wanted == texture_actions(sets, texture),
            actions@ == wanted.take(i + 1),
        decreases sets - i,
    {
        actions.push(GpuAction::WriteTexture(texture_write(i, texture)));
        assert(actions@ =~= wanted.take(i + 2));
        i = i + 1;
    }
    assert(wanted.take(sets + 1) =~= wanted);
    actions
}

/// Appends the destruction of what depends on the swapchain.
fn push_cleanup(actions: &mut Vec<GpuAction>, framebuffers: u32, command_buffers: u32)
    ensures
        final(actions)@ == old(actions)@ + cleanup_actions(framebuffers, command_buffers),
{
    let mut i: u32 = 0;
    let ghost wanted = cleanup_actions(framebuffers, command_buffers);
    assert(actions@ =~= old(actions)@ + wanted.take(0));
    while i < framebuffers
        invariant
            i <= framebuffers,
            wanted == cleanup_actions(framebuffers, command_buffers),
            actions@ == old(actions)@ + wanted.take(i as int),
        decreases framebuffers - i,
    {
        actions.push(GpuAction::DestroyFramebuffer { index: i });
        assert(actions@ =~= old(actions)@ + wanted.take(i + 1));
        i = i + 1;
    }
    actions.push(GpuAction::FreeCommandBuffers { count: command_buffers });
    actions.push(GpuAction::DestroyPipeline);
    actions.push(GpuAction::DestroyPipelineLayout);
    actions.push(GpuAction::DestroyRenderPass);
    assert(actions@ =~= old(actions)@ + wanted);
}

/// Lists the first half of a rebuild.
pub fn replace_swapchain_plan(framebuffers: u32, command_buffers: u32, setup: SwapchainDesc) -> (
    actions: Vec<GpuAction>)
    ensures
        actions@ == replace_swapchain_actions(framebuffers, command_buffers, setup),
{
    let mut actions: Vec<GpuAction> = Vec::new();
    actions.push(GpuAction::WaitIdle);
    actions.push(GpuAction::DestroySwapchain);
    push_cleanup(&mut actions, framebuffers, command_buffers);
    actions.push(GpuAction::CreateSwapchain(setup));
    assert(actions@ =~= replace_swapchain_actions(framebuffers, command_buffers, setup));
    actions
}

/// Appends the recording of a list of commands into a command buffer.
fn push_recorded(actions: &mut Vec<GpuAction>, buffer: u32, commands: &Vec<Command>)
    ensures
        final(actions)@ == old(actions)@ + recorded(buffer, commands@),
{
    let mut k: usize = 0;
    let ghost wanted = recorded(buffer, commands@);
    assert(actions@ =~= old(actions)@ + wanted.take(0));
    while k < commands.len()
        invariant
            k <= commands@.len(),
            wanted == recorded(buffer, commands@),
            actions@ == old(actions)@ + wanted.take(k as int),
        decreases commands@.len() - k,
    {
        actions.push(GpuAction::Record { buffer, command: commands[k] });
        assert(actions@ =~= old(actions)@ + wanted.take(k + 1));
        k = k + 1;
    }
    assert(wanted.take(commands@.len() as int) =~= wanted);
}

/// Lists the second half of a rebuild.
pub fn restore_plan(
    swapchain: SwapchainWrapper,
    msaa_samples: u32,
    depth_format: i32,
    vertex_input: VertexInput,
    renderables: &Vec<Renderable>,
) -> (actions: Vec<GpuAction>)
    requires
        swapchain.images > 0 ==> drawable(renderables@),
    ensures
        actions@ == restore_actions(
            swapchain,
            msaa_samples,
            depth_format,
            vertex_input,
            renderables@,
        ),
{
    let properties = swapchain.properties;
    let mut actions: Vec<GpuAction> = Vec::new();
    actions.push(
        GpuAction::CreateRenderPass(
            render_pass_desc(properties.format, msaa_samples, depth_format),
        ),
    );
    push_pipeline(&mut actions, properties.extent, msaa_samples, vertex_input);
    push_framebuffers(&mut actions, swapchain.images, properties.extent);
    actions.push(
        GpuAction::AllocateCommandBuffers {
            count: swapchain.images,
            level: COMMAND_BUFFER_LEVEL_PRIMARY,
        },
    );
    let ghost before = actions@;
    let mut i: u32 = 0;
    assert(actions@ =~= before + recordings(0, properties.extent, renderables@));
    while i < swapchain.images
        invariant
            i <= swapchain.images,
            swapchain.images > 0 ==> drawable(renderables@),
            actions@ == before + recordings(i as nat, properties.extent, renderables@),
        decreases swapchain.images - i,
    {
        let commands = record_commands(i, properties.extent, renderables);
        push_recorded(&mut actions, i, &commands);
        assert(actions@ =~= before + recordings((i + 1) as nat, properties.extent, renderables@));
        i = i + 1;
    }
    assert(actions@ =~= restore_actions(
        swapchain,
        msaa_samples,
        depth_format,
        vertex_input,
        renderables@,
    ));
    actions
}

/// Lists the destruction of everything.
pub fn teardown_plan(
    renderables: &Vec<Renderable>,
    framebuffers: u32,
    command_buffers: u32,
    descriptor_sets: u32,
) -> (actions: Vec<GpuAction>)
    ensures
        actions@ == teardown_actions(
            renderables@,
            framebuffers,
            command_buffers,
            descriptor_sets,
        ),
{
    let mut actions: Vec<GpuAction> = Vec::new();
    let mut r: usize = 0;
    assert(renderables@.take(0) =~= Seq::<Renderable>::empty());
    assert(renderables@.take(renderables@.len() as int) =~= renderables@);
    assert(actions@ =~= texture_releases(scene_textures(renderables@.take(0))));
    while r < renderables.len()
        invariant
            r <= renderables@.len(),
            actions@ == texture_releases(scene_textures(renderables@.take(r as int))),
        decreases renderables@.len() - r,
    {
        proof {
            assert(renderables@.take(r + 1).drop_last() =~= renderables@.take(r as int));
        }
        match renderables[r].texture {
            Some(texture) => {
                actions.push(GpuAction::DestroyTexture { index: texture.0 });
            },
            None => {},
        }
        assert(actions@ =~= texture_releases(scene_textures(renderables@.take(r + 1))));
        r = r + 1;
    }
    actions.push(GpuAction::DestroySwapchain);
    push_cleanup(&mut actions, framebuffers, command_buffers);
    actions.push(GpuAction::DestroySyncObjects { count: MAX_FRAMES_IN_FLIGHT });
    actions.push(GpuAction::DestroySampler);
    actions.push(GpuAction::DestroyDescriptorPool { sets: descriptor_sets });
    actions.push(GpuAction::DestroyDescriptorSetLayout);
    let ghost before = actions@;
    let mut i: u32 = 0;
    assert(actions@ =~= before + uniform_releases(0));
    while i < MAX_FRAMES_IN_FLIGHT
        invariant
            i <= MAX_FRAMES_IN_FLIGHT,
            actions@ == before + uniform_releases(i as nat),
        decreases MAX_FRAMES_IN_FLIGHT - i,
    {
        actions.push(GpuAction::UnmapUniformBuffer { index: i });
        actions.push(GpuAction::DestroyUniformBuffer { index: i });
        assert(actions@ =~= before + uniform_releases((i + 1) as nat));
        i = i + 1;
    }
    actions.push(GpuAction::DestroyIndexBuffer);
    actions.push(GpuAction::DestroyVertexBuffer);
    actions.push(GpuAction::DestroyTransferCommandPool);
    actions.push(GpuAction::DestroyGraphicsCommandPool);
    assert(actions@ =~= teardown_actions(
        renderables@,
        framebuffers,
        command_buffers,
        descriptor_sets,
    ));
    actions
}

/// Law: the textures of a scene are those of its renderables, each for the renderable
/// that has it, in the order of the renderables.
pub proof fn law_scene_textures_are_those_of_the_renderables(renderables: Seq<Renderable>)
    ensures
        forall|texture: Texture| #[trigger]
            scene_textures(renderables).contains(texture) <==> exists|r: int|
                0 <= r < renderables.len() && (#[trigger] renderables[r]).texture == Some(texture),
        scene_textures(renderables).len() == renderables.filter(
            |renderable: Renderable| renderable.texture is Some,
        ).len(),
    decreases renderables.len(),
{
    let has_texture = |renderable: Renderable| renderable.texture is Some;
    reveal(Seq::filter);
    if renderables.len() > 0 {
        let front = renderables.drop_last();
        let last = renderables.last();
        let before = scene_textures(front);
        let all = scene_textures(renderables);
        law_scene_textures_are_those_of_the_renderables(front);
        assert forall|texture: Texture| #[trigger] all.contains(texture) <==> exists|r: int|
            0 <= r < renderables.len() && (#[trigger] renderables[r]).texture == Some(texture) by {
            if all.contains(texture) {
                let k = choose|k: int| 0 <= k < all.len() && all[k] == texture;
                if k < before.len() {
                    assert(before[k] == texture);
                    assert(before.contains(texture));
                    let r = choose|r: int|
                        0 <= r < front.len() && (#[trigger] front[r]).texture == Some(texture);
                    assert(renderables[r].texture == Some(texture));
                } else {
                    assert(renderables[renderables.len() - 1].texture == Some(texture));
                }
            }
            if exists|r: int|
                0 <= r < renderables.len() && (#[trigger] renderables[r]).texture == Some(texture) {
                let r = choose|r: int|
                    0 <= r < renderables.len() && (#[trigger] renderables[r]).texture == Some(
                        texture,
                    );
                if r < front.len() {
                    assert(front[r].texture == Some(texture));
                    assert(before.contains(texture));
                    let k = choose|k: int| 0 <= k < before.len() && before[k] == texture;
                    assert(all[k] == texture);
                } else {
                    assert(all[all.len() - 1] == texture);
                }
            }
        }
    }
}

/// Law: at the end the textures go first, in the order of the renderables, then the
/// swapchain before what was made for it, and the command pools last, when nothing
/// made from them is left.
pub proof fn law_teardown_ends_with_the_command_pools(
    renderables: Vec<Renderable>,
    framebuffers: u32,
    command_buffers: u32,
    descriptor_sets: u32,
    actions: Vec<GpuAction>,
)
    requires
        call_ensures(
            teardown_plan,
            (&renderables, framebuffers, command_buffers, descriptor_sets),
            actions,
        ),
    ensures
        ({
            let textures = scene_textures(renderables@);
            let all = actions@;
            &&& all.len() == textures.len() + framebuffers + 19
            &&& forall|k: int|
                0 <= k < textures.len() ==> #[trigger] all[k] == (GpuAction::DestroyTexture {
                    index: textures[k].0,
                })
            &&& all[textures.len() as int] is DestroySwapchain
            &&& forall|k: int|
                0 <= k < framebuffers ==> all[textures.len() + 1 + k] == (
                #[trigger] cleanup_actions(framebuffers, command_buffers)[k])
            &&& all[all.len() - 1] is DestroyGraphicsCommandPool
            &&& all[all.len() - 2] is DestroyTransferCommandPool
            &&& all[all.len() - 3] is DestroyVertexBuffer
            &&& all[all.len() - 4] is DestroyIndexBuffer
            &&& all[textures.len() + framebuffers + 7] == (GpuAction::DestroyDescriptorPool {
                sets: descriptor_sets,
            })
            &&& all[textures.len() + framebuffers + 8] is DestroyDescriptorSetLayout
        }),
{
    let textures = scene_textures(renderables@);
    let all = actions@;
    let releases = uniform_releases(3);
    reveal_with_fuel(uniform_releases, 4);
    assert(releases.len() == 6);
    assert(texture_releases(textures).len() == textures.len());
    assert(all =~= teardown_actions(
        renderables@,
        framebuffers,
        command_buffers,
        descriptor_sets,
    ));
}

} // verus!
