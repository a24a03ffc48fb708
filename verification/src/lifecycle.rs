//! What every list of requests does to the objects on the device: nothing is
//! used before it is created, nothing is lost, and nothing is left behind.

use vstd::prelude::*;

use crate::actions::{after, allowed, creates, destroys, run, uses, GpuAction, Resource};
use crate::descriptors::{DescriptorSetLayoutBinding, MAX_FRAMES_IN_FLIGHT, UBO};
use crate::instance::RenderInstance;
use crate::plans::{
    cleanup_actions, creation_actions, framebuffer_actions, map_actions, pipeline_actions,
    recorded, recordings, replace_swapchain_actions, restore_actions, scene_textures, sync_actions, teardown_actions,
    texture_actions, texture_releases, uniform_buffer_actions, uniform_releases,
    uniform_write_actions,
};
use crate::pipeline::VertexInput;
use crate::recording::{
    command_stream, is_draw, lemma_scene_draws_only_draw, scene_draws, stream_end, stream_start,
};
use crate::scene::{Renderable, Texture};
use crate::targets::{SwapchainDesc, SwapchainWrapper};
use crate::vulkan::{Extent2D, COMMAND_POOL_CREATE_NONE};

verus! {

/// A head count of the objects on the device. Objects of which there are
/// several are alive from the first position to before the second.
pub ghost struct Census {
    pub graphics_pool: bool,
    pub transfer_pool: bool,
    pub swapchain: bool,
    pub render_pass: bool,
    pub descriptor_set_layout: bool,
    pub vertex_shader: bool,
    pub fragment_shader: bool,
    pub pipeline_layout: bool,
    pub pipeline: bool,
    pub sampler: bool,
    pub descriptor_pool: bool,
    pub vertex_buffer: bool,
    pub index_buffer: bool,
    pub framebuffers: (int, int),
    pub command_buffers: int,
    pub sync_objects: int,
    pub descriptor_sets: int,
    pub uniform_buffers: (int, int),
    pub uniform_mappings: (int, int),
    pub textures: Set<u32>,
}

/// Whether an object is counted.
pub open spec fn is_counted(c: Census, r: Resource) -> bool {
    ||| r is GraphicsCommandPool && c.graphics_pool
    ||| r is TransferCommandPool && c.transfer_pool
    ||| r is Swapchain && c.swapchain
    ||| r is RenderPass && c.render_pass
    ||| r is DescriptorSetLayout && c.descriptor_set_layout
    ||| r is ShaderModule && r->ShaderModule_0 is Vertex && c.vertex_shader
    ||| r is ShaderModule && r->ShaderModule_0 is Fragment && c.fragment_shader
    ||| r is PipelineLayout && c.pipeline_layout
    ||| r is Pipeline && c.pipeline
    ||| r is Framebuffer && c.framebuffers.0 <= r->Framebuffer_0 < c.framebuffers.1
    ||| r is CommandBuffer && r->CommandBuffer_0 < c.command_buffers
    ||| r is SyncObjects && r->SyncObjects_0 < c.sync_objects
    ||| r is UniformBuffer && c.uniform_buffers.0 <= r->UniformBuffer_0 < c.uniform_buffers.1
    ||| r is UniformMapping && c.uniform_mappings.0 <= r->UniformMapping_0 < c.uniform_mappings.1
    ||| r is TextureSampler && c.sampler
    ||| r is DescriptorPool && c.descriptor_pool
    ||| r is DescriptorSet && r->DescriptorSet_0 < c.descriptor_sets
    ||| r is VertexBuffer && c.vertex_buffer
    ||| r is IndexBuffer && c.index_buffer
    ||| r is Texture && c.textures.contains(r->Texture_0)
}

/// The objects that are counted.
#[verifier::opaque]
pub open spec fn counted(c: Census) -> Set<Resource> {
    Set::new(|r: Resource| is_counted(c, r))
}

/// Nothing at all.
pub open spec fn nobody() -> Census {
    Census {
        graphics_pool: false,
        transfer_pool: false,
        swapchain: false,
        render_pass: false,
        descriptor_set_layout: false,
        vertex_shader: false,
        fragment_shader: false,
        pipeline_layout: false,
        pipeline: false,
        sampler: false,
        descriptor_pool: false,
        vertex_buffer: false,
        index_buffer: false,
        framebuffers: (0, 0),
        command_buffers: 0,
        sync_objects: 0,
        descriptor_sets: 0,
        uniform_buffers: (0, 0),
        uniform_mappings: (0, 0),
        textures: Set::empty(),
    }
}

/// The textures of renderables by their indices.
pub open spec fn texture_set(renderables: Seq<Renderable>) -> Set<u32> {
    Set::new(|t: u32| scene_textures(renderables).contains(Texture(t)))
}

/// Everything that a running renderer owns.
pub open spec fn everybody(
    framebuffers: u32,
    command_buffers: u32,
    textures: Set<u32>,
) -> Census {
    Census {
        graphics_pool: true,
        transfer_pool: true,
        swapchain: true,
        render_pass: true,
        descriptor_set_layout: true,
        vertex_shader: false,
        fragment_shader: false,
        pipeline_layout: true,
        pipeline: true,
        sampler: true,
        descriptor_pool: true,
        vertex_buffer: true,
        index_buffer: true,
        framebuffers: (0, framebuffers as int),
        command_buffers: command_buffers as int,
        sync_objects: MAX_FRAMES_IN_FLIGHT as int,
        descriptor_sets: MAX_FRAMES_IN_FLIGHT as int,
        uniform_buffers: (0, MAX_FRAMES_IN_FLIGHT as int),
        uniform_mappings: (0, MAX_FRAMES_IN_FLIGHT as int),
        textures,
    }
}

/// A running renderer owns what is counted.
proof fn lemma_owned_is_counted<T: UBO + Copy>(instance: RenderInstance<T>)
    requires
        instance.wf(),
    ensures
        instance.owned() == counted(
            everybody(
                instance.framebuffers,
                instance.command_buffers,
                texture_set(instance.renderables@),
            ),
        ),
{
    reveal(counted);
    assert(instance.owned() =~= counted(
        everybody(
            instance.framebuffers,
            instance.command_buffers,
            texture_set(instance.renderables@),
        ),
    ));
}

/// Without requests nothing changes.
pub(crate) proof fn lemma_run_nothing()
    ensures
        forall|alive: Set<Resource>| #[trigger]
            run(alive, Seq::<GpuAction>::empty()) == Some(alive),
{
    reveal(run);
}

/// Requests one after the other.
pub(crate) proof fn lemma_run_concat(alive: Set<Resource>, first: Seq<GpuAction>, second: Seq<GpuAction>)
    ensures
        run(alive, first + second) == (match run(alive, first) {
            Some(between) => run(between, second),
            None => None,
        }),
    decreases second.len(),
{
    reveal(run);
    if second.len() == 0 {
        assert(first + second =~= first);
    } else {
        lemma_run_concat(alive, first, second.drop_last());
        assert((first + second).drop_last() =~= first + second.drop_last());
        assert((first + second).last() == second.last());
    }
}

/// One request, then others.
proof fn lemma_run_first(c: Census, next: Census, actions: Seq<GpuAction>)
    requires
        actions.len() > 0,
        allowed(counted(c), actions[0]),
        after(counted(c), actions[0]) == counted(next),
    ensures
        run(counted(c), actions) == run(counted(next), actions.drop_first()),
{
    lemma_run_nothing();
    let none = Seq::<GpuAction>::empty();
    let one = seq![actions[0]];
    lemma_run_last(counted(c), c, next, none, actions[0]);
    assert(one =~= none.push(actions[0]));
    assert(actions =~= one + actions.drop_first());
    lemma_run_concat(counted(c), one, actions.drop_first());
}

/// One request on top of others.
proof fn lemma_run_last(
    alive: Set<Resource>,
    c: Census,
    next: Census,
    actions: Seq<GpuAction>,
    action: GpuAction,
)
    requires
        run(alive, actions) == Some(counted(c)),
        allowed(counted(c), action),
        after(counted(c), action) == counted(next),
    ensures
        run(alive, actions.push(action)) == Some(counted(next)),
{
    reveal(run);
    assert(actions.push(action).drop_last() =~= actions);
}

/// Whether a request only uses what is alive.
spec fn only_uses(alive: Set<Resource>, action: GpuAction) -> bool {
    &&& forall|r: Resource| #[trigger] uses(action).contains(r) ==> alive.contains(r)
    &&& forall|r: Resource| !#[trigger] creates(action).contains(r)
    &&& forall|r: Resource| !#[trigger] destroys(action).contains(r)
}

/// Requests that create and destroy nothing change nothing.
proof fn lemma_run_uses(alive: Set<Resource>, actions: Seq<GpuAction>)
    requires
        forall|k: int| 0 <= k < actions.len() ==> only_uses(alive, #[trigger] actions[k]),
    ensures
        run(alive, actions) == Some(alive),
    decreases actions.len(),
{
    reveal(run);
    if actions.len() > 0 {
        let front = actions.drop_last();
        assert forall|k: int| 0 <= k < front.len() implies only_uses(
            alive,
            #[trigger] front[k],
        ) by {
            assert(front[k] == actions[k]);
        }
        lemma_run_uses(alive, front);
        assert(only_uses(alive, actions[actions.len() - 1]));
        assert(after(alive, actions.last()) =~= alive);
    }
}

/// The first `n` framebuffers.
proof fn lemma_run_framebuffers(c: Census, images: u32, extent: Extent2D, n: int)
    requires
        0 <= n <= images,
        c.render_pass,
        c.swapchain,
        c.framebuffers == (0int, 0int),
    ensures
        run(counted(c), framebuffer_actions(images, extent).take(n)) == Some(
            counted(Census { framebuffers: (0, n), ..c }),
        ),
    decreases n,
{
    lemma_run_nothing();
    reveal(counted);
    let all = framebuffer_actions(images, extent);
    if n == 0 {
        assert(all.take(0) =~= Seq::<GpuAction>::empty());
        assert(counted(Census { framebuffers: (0, n), ..c }) =~= counted(c));
    } else {
        let before = Census { framebuffers: (0, n - 1), ..c };
        let now = Census { framebuffers: (0, n), ..c };
        lemma_run_framebuffers(c, images, extent, n - 1);
        assert(all.take(n) =~= all.take(n - 1).push(all[n - 1]));
        assert(after(counted(before), all[n - 1]) =~= counted(now));
        lemma_run_last(counted(c), before, now, all.take(n - 1), all[n - 1]);
    }
}

/// The frame objects of the first `n` frames.
proof fn lemma_run_sync_objects(c: Census, count: u32, n: int)
    requires
        0 <= n <= count,
        c.sync_objects == 0,
    ensures
        run(counted(c), sync_actions(count).take(n)) == Some(
            counted(Census { sync_objects: n, ..c }),
        ),
    decreases n,
{
    lemma_run_nothing();
    reveal(counted);
    let all = sync_actions(count);
    if n == 0 {
        assert(all.take(0) =~= Seq::<GpuAction>::empty());
        assert(counted(Census { sync_objects: n, ..c }) =~= counted(c));
    } else {
        let before = Census { sync_objects: n - 1, ..c };
        let now = Census { sync_objects: n, ..c };
        lemma_run_sync_objects(c, count, n - 1);
        assert(all.take(n) =~= all.take(n - 1).push(all[n - 1]));
        assert(after(counted(before), all[n - 1]) =~= counted(now));
        lemma_run_last(counted(c), before, now, all.take(n - 1), all[n - 1]);
    }
}

/// The first `n` uniform buffers.
proof fn lemma_run_uniform_buffers(c: Census, count: u32, size: u64, n: int)
    requires
        0 <= n <= count,
        c.uniform_buffers == (0int, 0int),
    ensures
        run(counted(c), uniform_buffer_actions(count, size).take(n)) == Some(
            counted(Census { uniform_buffers: (0, n), ..c }),
        ),
    decreases n,
{
    lemma_run_nothing();
    reveal(counted);
    let all = uniform_buffer_actions(count, size);
    if n == 0 {
        assert(all.take(0) =~= Seq::<GpuAction>::empty());
        assert(counted(Census { uniform_buffers: (0, n), ..c }) =~= counted(c));
    } else {
        let before = Census { uniform_buffers: (0, n - 1), ..c };
        let now = Census { uniform_buffers: (0, n), ..c };
        lemma_run_uniform_buffers(c, count, size, n - 1);
        assert(all.take(n) =~= all.take(n - 1).push(all[n - 1]));
        assert(after(counted(before), all[n - 1]) =~= counted(now));
        lemma_run_last(counted(c), before, now, all.take(n - 1), all[n - 1]);
    }
}

/// The first `n` mappings.
proof fn lemma_run_maps(c: Census, count: u32, size: u64, n: int)
    requires
        0 <= n <= count,
        c.uniform_buffers == (0int, count as int),
        c.uniform_mappings == (0int, 0int),
    ensures
        run(counted(c), map_actions(count, size).take(n)) == Some(
            counted(Census { uniform_mappings: (0, n), ..c }),
        ),
    decreases n,
{
    lemma_run_nothing();
    reveal(counted);
    let all = map_actions(count, size);
    if n == 0 {
        assert(all.take(0) =~= Seq::<GpuAction>::empty());
        assert(counted(Census { uniform_mappings: (0, n), ..c }) =~= counted(c));
    } else {
        let before = Census { uniform_mappings: (0, n - 1), ..c };
        let now = Census { uniform_mappings: (0, n), ..c };
        lemma_run_maps(c, count, size, n - 1);
        assert(all.take(n) =~= all.take(n - 1).push(all[n - 1]));
        assert(after(counted(before), all[n - 1]) =~= counted(now));
        lemma_run_last(counted(c), before, now, all.take(n - 1), all[n - 1]);
    }
}

/// The destruction of one framebuffer.
proof fn lemma_destroy_framebuffer(c: Census, i: u32, count: int)
    requires
        i < count,
        c.framebuffers == (i as int, count),
    ensures
        allowed(counted(c), GpuAction::DestroyFramebuffer { index: i }),
        after(counted(c), GpuAction::DestroyFramebuffer { index: i }) == counted(
            Census { framebuffers: (i + 1, count), ..c },
        ),
{
    reveal(counted);
    assert(after(counted(c), GpuAction::DestroyFramebuffer { index: i }) =~= counted(
        Census { framebuffers: (i + 1, count), ..c },
    ));
}

/// The destruction of one texture.
proof fn lemma_destroy_texture(c: Census, texture: u32)
    requires
        c.textures.contains(texture),
    ensures
        allowed(counted(c), GpuAction::DestroyTexture { index: texture }),
        after(counted(c), GpuAction::DestroyTexture { index: texture }) == counted(
            Census { textures: c.textures.remove(texture), ..c },
        ),
{
    reveal(counted);
    assert(after(counted(c), GpuAction::DestroyTexture { index: texture }) =~= counted(
        Census { textures: c.textures.remove(texture), ..c },
    ));
}

/// The destruction of the first `n` framebuffers.
proof fn lemma_run_cleanup_framebuffers(c: Census, framebuffers: u32, buffers: u32, n: int)
    requires
        0 <= n <= framebuffers,
        c.framebuffers == (0int, framebuffers as int),
    ensures
        run(counted(c), cleanup_actions(framebuffers, buffers).take(n)) == Some(
            counted(Census { framebuffers: (n, framebuffers as int), ..c }),
        ),
    decreases n,
{
    lemma_run_nothing();
    reveal(counted);
    let all = cleanup_actions(framebuffers, buffers);
    if n == 0 {
        assert(all.take(0) =~= Seq::<GpuAction>::empty());
        assert(counted(Census { framebuffers: (n, framebuffers as int), ..c }) =~= counted(c));
    } else {
        let before = Census { framebuffers: (n - 1, framebuffers as int), ..c };
        let now = Census { framebuffers: (n, framebuffers as int), ..c };
        lemma_run_cleanup_framebuffers(c, framebuffers, buffers, n - 1);
        assert(all.take(n) =~= all.take(n - 1).push(all[n - 1]));
        let action = GpuAction::DestroyFramebuffer { index: (n - 1) as u32 };
        assert(all[n - 1] == action);
        lemma_destroy_framebuffer(before, (n - 1) as u32, framebuffers as int);
        lemma_run_last(counted(c), before, now, all.take(n - 1), action);
    }
}

/// The cleanup destroys all that depends on the swapchain.
proof fn lemma_run_cleanup(c: Census, framebuffers: u32, buffers: u32)
    requires
        c.framebuffers == (0int, framebuffers as int),
        c.command_buffers == buffers,
        c.graphics_pool,
        c.pipeline,
        c.pipeline_layout,
        c.render_pass,
    ensures
        run(counted(c), cleanup_actions(framebuffers, buffers)) == Some(
            counted(
                Census {
                    framebuffers: (0, 0),
                    command_buffers: 0,
                    pipeline: false,
                    pipeline_layout: false,
                    render_pass: false,
                    ..c
                },
            ),
        ),
{
    reveal(counted);
    let all = cleanup_actions(framebuffers, buffers);
    let n = framebuffers as int;
    lemma_run_cleanup_framebuffers(c, framebuffers, buffers, n);
    let c0 = Census { framebuffers: (n, n), ..c };
    let c1 = Census { command_buffers: 0, ..c0 };
    let c2 = Census { pipeline: false, ..c1 };
    let c3 = Census { pipeline_layout: false, ..c2 };
    let c4 = Census { render_pass: false, ..c3 };
    let end = Census { framebuffers: (0, 0), ..c4 };
    assert(all[n] == GpuAction::FreeCommandBuffers { count: buffers });
    assert(all[n + 1] == GpuAction::DestroyPipeline);
    assert(all[n + 2] == GpuAction::DestroyPipelineLayout);
    assert(all[n + 3] == GpuAction::DestroyRenderPass);
    assert(after(counted(c0), all[n]) =~= counted(c1));
    assert(after(counted(c1), all[n + 1]) =~= counted(c2));
    assert(after(counted(c2), all[n + 2]) =~= counted(c3));
    assert(after(counted(c3), all[n + 3]) =~= counted(c4));
    lemma_run_last(counted(c), c0, c1, all.take(n), all[n]);
    assert(all.take(n).push(all[n]) =~= all.take(n + 1));
    lemma_run_last(counted(c), c1, c2, all.take(n + 1), all[n + 1]);
    assert(all.take(n + 1).push(all[n + 1]) =~= all.take(n + 2));
    lemma_run_last(counted(c), c2, c3, all.take(n + 2), all[n + 2]);
    assert(all.take(n + 2).push(all[n + 2]) =~= all.take(n + 3));
    lemma_run_last(counted(c), c3, c4, all.take(n + 3), all[n + 3]);
    assert(all.take(n + 3).push(all[n + 3]) =~= all);
    assert(counted(c4) =~= counted(end));
}

/// Recording uses what is alive.
proof fn lemma_run_recordings(
    c: Census,
    count: nat,
    extent: Extent2D,
    renderables: Seq<Renderable>,
)
    requires
        count <= u32::MAX,
        c.render_pass,
        c.pipeline,
        c.pipeline_layout,
        c.vertex_buffer,
        c.index_buffer,
        c.framebuffers.0 == 0,
        count <= c.framebuffers.1,
        count <= c.command_buffers,
        count <= c.descriptor_sets,
    ensures
        run(counted(c), recordings(count, extent, renderables)) == Some(counted(c)),
    decreases count,
{
    reveal(counted);
    lemma_run_nothing();
    if count > 0 {
        let buffer = (count - 1) as u32;
        let stream = command_stream(buffer, extent, renderables);
        let actions = recorded(buffer, stream);
        lemma_run_recordings(c, (count - 1) as nat, extent, renderables);
        lemma_scene_draws_only_draw(renderables);
        assert forall|k: int| 0 <= k < actions.len() implies only_uses(
            counted(c),
            #[trigger] actions[k],
        ) by {
            let start = stream_start(buffer, extent);
            let draws = scene_draws(renderables);
            if k < start.len() {
                assert(stream[k] == start[k]);
            } else if k < start.len() + draws.len() {
                assert(stream[k] == draws[k - start.len()]);
                assert(is_draw(stream[k]));
            } else {
                assert(stream[k] == stream_end()[k - start.len() - draws.len()]);
            }
            assert(actions[k] == (GpuAction::Record { buffer, command: stream[k] }));
        }
        lemma_run_uses(counted(c), actions);
        lemma_run_concat(
            counted(c),
            recordings((count - 1) as nat, extent, renderables),
            actions,
        );
    }
}

/// Law: a rebuild destroys what depended on the old swapchain before it creates
/// it anew, uses nothing that is gone, and leaves the renderer with everything
/// that it owns.
pub proof fn law_rebuild_keeps_the_renderer_whole<T: UBO + Copy>(
    before: RenderInstance<T>,
    after_rebuild: RenderInstance<T>,
    setup: SwapchainDesc,
    swapchain: SwapchainWrapper,
)
    requires
        before.wf(),
        swapchain.images <= before.descriptor_sets,
        after_rebuild == (RenderInstance {
            swapchain,
            framebuffers: swapchain.images,
            command_buffers: swapchain.images,
            ..before
        }),
    ensures
        run(
            before.owned(),
            replace_swapchain_actions(before.framebuffers, before.command_buffers, setup)
                + restore_actions(
                swapchain,
                before.msaa_samples,
                before.depth_format,
                before.vertex_input,
                before.renderables@,
            ),
        ) == Some(after_rebuild.owned()),
{
    lemma_run_nothing();
    reveal(counted);
    let extent = swapchain.properties.extent;
    let images = swapchain.images;
    lemma_owned_is_counted(before);
    lemma_owned_is_counted(after_rebuild);
    let textures = texture_set(before.renderables@);
    let all = everybody(before.framebuffers, before.command_buffers, textures);
    let replace = replace_swapchain_actions(before.framebuffers, before.command_buffers, setup);
    let cleanup = cleanup_actions(before.framebuffers, before.command_buffers);
    let restore = restore_actions(
        swapchain,
        before.msaa_samples,
        before.depth_format,
        before.vertex_input,
        before.renderables@,
    );
    // The old swapchain goes.
    let start = seq![GpuAction::WaitIdle, GpuAction::DestroySwapchain];
    let c1 = Census { swapchain: false, ..all };
    assert(after(counted(all), start[0]) =~= counted(all));
    assert(after(counted(all), start[1]) =~= counted(c1));
    assert(run(counted(all), start) == Some(counted(c1))) by {
        lemma_run_first(all, all, start);
        lemma_run_first(all, c1, start.drop_first());
        assert(start.drop_first().drop_first() =~= Seq::<GpuAction>::empty());
    }
    lemma_run_cleanup(c1, before.framebuffers, before.command_buffers);
    let c2 = Census {
        framebuffers: (0, 0),
        command_buffers: 0,
        pipeline: false,
        pipeline_layout: false,
        render_pass: false,
        ..c1
    };
    let create = seq![GpuAction::CreateSwapchain(setup)];
    let c3 = Census { swapchain: true, ..c2 };
    assert(after(counted(c2), create[0]) =~= counted(c3));
    assert(run(counted(c2), create) == Some(counted(c3))) by {
        lemma_run_first(c2, c3, create);
        assert(create.drop_first() =~= Seq::<GpuAction>::empty());
    }
    assert(run(counted(all), replace) == Some(counted(c3))) by {
        lemma_run_concat(counted(all), start, cleanup);
        lemma_run_concat(counted(all), start + cleanup, create);
    }
    // What depends on the new one comes.
    let base = restore.take(1);
    assert(base[0] is CreateRenderPass);
    let c4 = Census { render_pass: true, ..c3 };
    assert(after(counted(c3), base[0]) =~= counted(c4));
    assert(run(counted(c3), base) == Some(counted(c4))) by {
        lemma_run_first(c3, c4, base);
        assert(base.drop_first() =~= Seq::<GpuAction>::empty());
    }
    let pipeline = pipeline_actions(extent, before.msaa_samples, before.vertex_input);
    let c5 = Census { pipeline: true, pipeline_layout: true, ..c4 };
    lemma_run_pipeline(c4, extent, before.msaa_samples, before.vertex_input);
    let frames = framebuffer_actions(images, extent);
    lemma_run_framebuffers(c5, images, extent, images as int);
    assert(frames.take(images as int) =~= frames);
    let c6 = Census { framebuffers: (0, images as int), ..c5 };
    let allocate = seq![restore[6 + images]];
    let c7 = Census { command_buffers: images as int, ..c6 };
    assert(allocate[0] is AllocateCommandBuffers);
    assert(after(counted(c6), allocate[0]) =~= counted(c7));
    assert(run(counted(c6), allocate) == Some(counted(c7))) by {
        lemma_run_first(c6, c7, allocate);
        assert(allocate.drop_first() =~= Seq::<GpuAction>::empty());
    }
    let records = recordings(images as nat, extent, before.renderables@);
    lemma_run_recordings(c7, images as nat, extent, before.renderables@);
    assert(restore =~= base + pipeline + frames + allocate + records);
    lemma_run_concat(counted(c3), base, pipeline);
    lemma_run_concat(counted(c3), base + pipeline, frames);
    lemma_run_concat(counted(c3), base + pipeline + frames, allocate);
    lemma_run_concat(counted(c3), base + pipeline + frames + allocate, records);
    lemma_run_concat(counted(all), replace, restore);
    assert(counted(c7) =~= counted(everybody(images, images, textures)));
}

/// Law: bringing the renderer up creates everything before it is used and ends
/// with exactly what the renderer owns.
pub proof fn law_create_brings_everything_up<T: UBO + Copy>(
    instance: RenderInstance<T>,
    setup: SwapchainDesc,
    uniform: DescriptorSetLayoutBinding,
    uniform_size: u64,
)
    requires
        instance.wf(),
        instance.command_buffers == 0,
        instance.renderables@.len() == 0,
    ensures
        run(
            Set::empty(),
            seq![
                GpuAction::CreateGraphicsCommandPool {
                    queue_family_index: setup.queue_families_indices.graphics_index,
                    flags: COMMAND_POOL_CREATE_NONE,
                },
                GpuAction::CreateSwapchain(setup),
            ] + creation_actions(
                setup,
                instance.swapchain,
                instance.vertex_input,
                uniform,
                uniform_size,
            ),
        ) == Some(instance.owned()),
{
    lemma_run_nothing();
    reveal(counted);
    let swapchain = instance.swapchain;
    let extent = swapchain.properties.extent;
    let images = swapchain.images;
    let frames_count = MAX_FRAMES_IN_FLIGHT;
    lemma_owned_is_counted(instance);
    assert(counted(nobody()) =~= Set::<Resource>::empty());
    let c0 = nobody();
    let first = seq![
        GpuAction::CreateGraphicsCommandPool {
            queue_family_index: setup.queue_families_indices.graphics_index,
            flags: COMMAND_POOL_CREATE_NONE,
        },
        GpuAction::CreateSwapchain(setup),
    ];
    let c1 = Census { graphics_pool: true, ..c0 };
    let c2 = Census { swapchain: true, ..c1 };
    assert(after(counted(c0), first[0]) =~= counted(c1));
    assert(after(counted(c1), first[1]) =~= counted(c2));
    assert(run(counted(c0), first) == Some(counted(c2))) by {
        lemma_run_first(c0, c1, first);
        lemma_run_first(c1, c2, first.drop_first());
        assert(first.drop_first().drop_first() =~= Seq::<GpuAction>::empty());
    }
    let vertex_input = instance.vertex_input;
    let all = creation_actions(setup, swapchain, vertex_input, uniform, uniform_size);
    let base = all.take(2);
    let pipeline = pipeline_actions(extent, setup.msaa_samples, vertex_input);
    let pool = all.subrange(7, 8);
    let c3 = Census { render_pass: true, ..c2 };
    let c4 = Census { descriptor_set_layout: true, ..c3 };
    let c5 = Census { pipeline: true, pipeline_layout: true, ..c4 };
    let c6 = Census { transfer_pool: true, ..c5 };
    lemma_run_base(c2, base);
    lemma_run_pipeline(c4, extent, setup.msaa_samples, vertex_input);
    lemma_run_transfer_pool(c5, pool);
    let frames = framebuffer_actions(images, extent);
    lemma_run_framebuffers(c6, images, extent, images as int);
    assert(frames.take(images as int) =~= frames);
    let c7 = Census { framebuffers: (0, images as int), ..c6 };
    let syncs = sync_actions(frames_count);
    lemma_run_sync_objects(c7, frames_count, frames_count as int);
    assert(syncs.take(frames_count as int) =~= syncs);
    let c8 = Census { sync_objects: frames_count as int, ..c7 };
    let uniforms = uniform_buffer_actions(frames_count, uniform_size);
    lemma_run_uniform_buffers(c8, frames_count, uniform_size, frames_count as int);
    assert(uniforms.take(frames_count as int) =~= uniforms);
    let c9 = Census { uniform_buffers: (0, frames_count as int), ..c8 };
    let at = 8 + images + 2 * frames_count;
    let sets = all.subrange(at, at + 3);
    let c12 = Census {
        sampler: true,
        descriptor_pool: true,
        descriptor_sets: frames_count as int,
        ..c9
    };
    lemma_run_descriptors(c9, sets);
    let writes = uniform_write_actions(frames_count, uniform_size);
    assert forall|k: int| 0 <= k < writes.len() implies only_uses(
        counted(c12),
        #[trigger] writes[k],
    ) by {}
    lemma_run_uses(counted(c12), writes);
    let maps = map_actions(frames_count, uniform_size);
    lemma_run_maps(c12, frames_count, uniform_size, frames_count as int);
    assert(maps.take(frames_count as int) =~= maps);
    let c13 = Census { uniform_mappings: (0, frames_count as int), ..c12 };
    let buffers = all.skip(all.len() - 2);
    let c15 = Census { vertex_buffer: true, index_buffer: true, ..c13 };
    lemma_run_geometry_buffers(c13, buffers);
    assert(all =~= base + pipeline + pool + frames + syncs + uniforms + sets + writes + maps + buffers);
    let alive = counted(c2);
    lemma_run_concat(alive, base, pipeline);
    lemma_run_concat(alive, base + pipeline, pool);
    lemma_run_concat(alive, base + pipeline + pool, frames);
    lemma_run_concat(alive, base + pipeline + pool + frames, syncs);
    lemma_run_concat(alive, base + pipeline + pool + frames + syncs, uniforms);
    lemma_run_concat(alive, base + pipeline + pool + frames + syncs + uniforms, sets);
    lemma_run_concat(alive, base + pipeline + pool + frames + syncs + uniforms + sets, writes);
    lemma_run_concat(alive, base + pipeline + pool + frames + syncs + uniforms + sets + writes, maps);
    lemma_run_concat(alive, base + pipeline + pool + frames + syncs + uniforms + sets + writes + maps, buffers);
    lemma_run_concat(counted(c0), first, all);
    assert(texture_set(instance.renderables@) =~= Set::<u32>::empty());
    assert(counted(c15) =~= counted(everybody(images, 0, Set::<u32>::empty())));
}

/// The render pass and the descriptor set layout.
proof fn lemma_run_base(c: Census, base: Seq<GpuAction>)
    requires
        !c.render_pass,
        !c.descriptor_set_layout,
        base.len() == 2,
        base[0] is CreateRenderPass,
        base[1] is CreateDescriptorSetLayout,
    ensures
        run(counted(c), base) == Some(
            counted(Census { render_pass: true, descriptor_set_layout: true, ..c }),
        ),
{
    lemma_run_nothing();
    reveal(counted);
    let c1 = Census { render_pass: true, ..c };
    let c2 = Census { descriptor_set_layout: true, ..c1 };
    assert(after(counted(c), base[0]) =~= counted(c1));
    assert(after(counted(c1), base[1]) =~= counted(c2));
    let none = Seq::<GpuAction>::empty();
    lemma_run_last(counted(c), c, c1, none, base[0]);
    lemma_run_last(counted(c), c1, c2, none.push(base[0]), base[1]);
    assert(base =~= none.push(base[0]).push(base[1]));
}

/// The pipeline, whose shader modules are gone afterwards.
proof fn lemma_run_pipeline(
    c: Census,
    extent: Extent2D,
    msaa_samples: u32,
    vertex_input: VertexInput,
)
    requires
        c.render_pass,
        c.descriptor_set_layout,
        !c.vertex_shader,
        !c.fragment_shader,
        !c.pipeline,
        !c.pipeline_layout,
    ensures
        run(counted(c), pipeline_actions(extent, msaa_samples, vertex_input)) == Some(
            counted(Census { pipeline: true, pipeline_layout: true, ..c }),
        ),
{
    lemma_run_nothing();
    reveal(counted);
    let all = pipeline_actions(extent, msaa_samples, vertex_input);
    let c1 = Census { vertex_shader: true, ..c };
    let c2 = Census { fragment_shader: true, ..c1 };
    let c3 = Census { pipeline: true, pipeline_layout: true, ..c2 };
    let c4 = Census { vertex_shader: false, ..c3 };
    let c5 = Census { fragment_shader: false, ..c4 };
    assert(after(counted(c), all[0]) =~= counted(c1));
    assert(after(counted(c1), all[1]) =~= counted(c2));
    assert(after(counted(c2), all[2]) =~= counted(c3));
    assert(after(counted(c3), all[3]) =~= counted(c4));
    assert(after(counted(c4), all[4]) =~= counted(c5));
    let none = Seq::<GpuAction>::empty();
    let some = none.push(all[0]).push(all[1]);
    lemma_run_last(counted(c), c, c1, none, all[0]);
    lemma_run_last(counted(c), c1, c2, none.push(all[0]), all[1]);
    lemma_run_last(counted(c), c2, c3, some, all[2]);
    lemma_run_last(counted(c), c3, c4, some.push(all[2]), all[3]);
    lemma_run_last(counted(c), c4, c5, some.push(all[2]).push(all[3]), all[4]);
    assert(all =~= some.push(all[2]).push(all[3]).push(all[4]));
}

/// The pool of the transfer commands.
proof fn lemma_run_transfer_pool(c: Census, pool: Seq<GpuAction>)
    requires
        !c.transfer_pool,
        pool.len() == 1,
        pool[0] is CreateTransferCommandPool,
    ensures
        run(counted(c), pool) == Some(counted(Census { transfer_pool: true, ..c })),
{
    lemma_run_nothing();
    reveal(counted);
    let next = Census { transfer_pool: true, ..c };
    assert(after(counted(c), pool[0]) =~= counted(next));
    let none = Seq::<GpuAction>::empty();
    lemma_run_last(counted(c), c, next, none, pool[0]);
    assert(pool =~= none.push(pool[0]));
}

/// The sampler, the descriptor pool and the descriptor sets.
proof fn lemma_run_descriptors(c: Census, sets: Seq<GpuAction>)
    requires
        c.descriptor_set_layout,
        !c.sampler,
        !c.descriptor_pool,
        c.descriptor_sets == 0,
        sets.len() == 3,
        sets[0] is CreateSampler,
        sets[1] is CreateDescriptorPool,
        sets[2] == (GpuAction::AllocateDescriptorSets { count: MAX_FRAMES_IN_FLIGHT }),
    ensures
        run(counted(c), sets) == Some(
            counted(
                Census {
                    sampler: true,
                    descriptor_pool: true,
                    descriptor_sets: MAX_FRAMES_IN_FLIGHT as int,
                    ..c
                },
            ),
        ),
{
    lemma_run_nothing();
    reveal(counted);
    let c1 = Census { sampler: true, ..c };
    let c2 = Census { descriptor_pool: true, ..c1 };
    let c3 = Census { descriptor_sets: MAX_FRAMES_IN_FLIGHT as int, ..c2 };
    assert(after(counted(c), sets[0]) =~= counted(c1));
    assert(after(counted(c1), sets[1]) =~= counted(c2));
    assert(after(counted(c2), sets[2]) =~= counted(c3));
    let none = Seq::<GpuAction>::empty();
    lemma_run_last(counted(c), c, c1, none, sets[0]);
    lemma_run_last(counted(c), c1, c2, none.push(sets[0]), sets[1]);
    lemma_run_last(counted(c), c2, c3, none.push(sets[0]).push(sets[1]), sets[2]);
    assert(sets =~= none.push(sets[0]).push(sets[1]).push(sets[2]));
}

/// The vertex and the index buffer.
proof fn lemma_run_geometry_buffers(c: Census, buffers: Seq<GpuAction>)
    requires
        !c.vertex_buffer,
        !c.index_buffer,
        buffers.len() == 2,
        buffers[0] is CreateVertexBuffer,
        buffers[1] is CreateIndexBuffer,
    ensures
        run(counted(c), buffers) == Some(
            counted(Census { vertex_buffer: true, index_buffer: true, ..c }),
        ),
{
    lemma_run_nothing();
    reveal(counted);
    let c1 = Census { vertex_buffer: true, ..c };
    let c2 = Census { index_buffer: true, ..c1 };
    assert(after(counted(c), buffers[0]) =~= counted(c1));
    assert(after(counted(c1), buffers[1]) =~= counted(c2));
    let none = Seq::<GpuAction>::empty();
    lemma_run_last(counted(c), c, c1, none, buffers[0]);
    lemma_run_last(counted(c), c1, c2, none.push(buffers[0]), buffers[1]);
    assert(buffers =~= none.push(buffers[0]).push(buffers[1]));
}

/// Indices without those of some textures.
spec fn without(indices: Set<u32>, textures: Seq<Texture>) -> Set<u32> {
    Set::new(|t: u32| indices.contains(t) && !textures.contains(Texture(t)))
}

/// The destruction of textures.
proof fn lemma_run_texture_releases(c: Census, textures: Seq<Texture>)
    requires
        textures.no_duplicates(),
        forall|k: int| 0 <= k < textures.len() ==> c.textures.contains((#[trigger] textures[k]).0),
    ensures
        run(counted(c), texture_releases(textures)) == Some(
            counted(Census { textures: without(c.textures, textures), ..c }),
        ),
    decreases textures.len(),
{
    lemma_run_nothing();
    reveal(counted);
    if textures.len() == 0 {
        assert(texture_releases(textures) =~= Seq::<GpuAction>::empty());
        assert(counted(Census { textures: without(c.textures, textures), ..c }) =~= counted(c));
    } else {
        let front = textures.drop_last();
        let gone = textures.last();
        let before = Census { textures: without(c.textures, front), ..c };
        let now = Census { textures: without(c.textures, textures), ..c };
        let action = GpuAction::DestroyTexture { index: gone.0 };
        assert forall|k: int| 0 <= k < front.len() implies c.textures.contains(
            (#[trigger] front[k]).0,
        ) by {
            assert(front[k] == textures[k]);
        }
        lemma_run_texture_releases(c, front);
        assert(gone == textures[textures.len() - 1]);
        assert(!front.contains(gone)) by {
            if front.contains(gone) {
                let k = choose|k: int| 0 <= k < front.len() && front[k] == gone;
                assert(textures[k] == textures[textures.len() - 1]);
            }
        }
        assert forall|t: u32| textures.contains(Texture(t)) <==> (front.contains(Texture(t)) || t
            == gone.0) by {
            if textures.contains(Texture(t)) {
                let k = choose|k: int| 0 <= k < textures.len() && textures[k] == Texture(t);
                if k < front.len() {
                    assert(front[k] == Texture(t));
                }
            }
            if front.contains(Texture(t)) {
                let k = choose|k: int| 0 <= k < front.len() && front[k] == Texture(t);
                assert(textures[k] == Texture(t));
            }
            if t == gone.0 {
                assert(textures[textures.len() - 1] == Texture(t));
            }
        }
        assert(Texture(gone.0) == gone);
        lemma_destroy_texture(before, gone.0);
        assert(before.textures.remove(gone.0) =~= now.textures);
        lemma_run_last(counted(c), before, now, texture_releases(front), action);
        assert(texture_releases(textures) =~= texture_releases(front).push(action));
    }
}

/// The unmapping of one uniform buffer.
proof fn lemma_unmap_uniform(c: Census, i: u32, count: int)
    requires
        i < count,
        c.uniform_buffers == (i as int, count),
        c.uniform_mappings == (i as int, count),
    ensures
        allowed(counted(c), GpuAction::UnmapUniformBuffer { index: i }),
        after(counted(c), GpuAction::UnmapUniformBuffer { index: i }) == counted(
            Census { uniform_mappings: (i + 1, count), ..c },
        ),
{
    reveal(counted);
    assert(after(counted(c), GpuAction::UnmapUniformBuffer { index: i }) =~= counted(
        Census { uniform_mappings: (i + 1, count), ..c },
    ));
}

/// The destruction of one uniform buffer.
proof fn lemma_destroy_uniform(c: Census, i: u32, count: int)
    requires
        i < count,
        c.uniform_buffers == (i as int, count),
    ensures
        allowed(counted(c), GpuAction::DestroyUniformBuffer { index: i }),
        after(counted(c), GpuAction::DestroyUniformBuffer { index: i }) == counted(
            Census { uniform_buffers: (i + 1, count), ..c },
        ),
{
    reveal(counted);
    assert(after(counted(c), GpuAction::DestroyUniformBuffer { index: i }) =~= counted(
        Census { uniform_buffers: (i + 1, count), ..c },
    ));
}

/// The destruction of the frame objects.
proof fn lemma_destroy_sync_objects(c: Census, count: u32)
    requires
        c.sync_objects == count,
    ensures
        allowed(counted(c), GpuAction::DestroySyncObjects { count }),
        after(counted(c), GpuAction::DestroySyncObjects { count }) == counted(
            Census { sync_objects: 0, ..c },
        ),
{
    reveal(counted);
    assert(after(counted(c), GpuAction::DestroySyncObjects { count }) =~= counted(
        Census { sync_objects: 0, ..c },
    ));
}

/// The destruction of the sampler.
proof fn lemma_destroy_sampler(c: Census)
    requires
        c.sampler,
    ensures
        allowed(counted(c), GpuAction::DestroySampler),
        after(counted(c), GpuAction::DestroySampler) == counted(Census { sampler: false, ..c }),
{
    reveal(counted);
    assert(after(counted(c), GpuAction::DestroySampler) =~= counted(
        Census { sampler: false, ..c },
    ));
}

/// The destruction of the descriptor pool with its sets.
proof fn lemma_destroy_descriptor_pool(c: Census, sets: u32)
    requires
        c.descriptor_pool,
        c.descriptor_sets == sets,
    ensures
        allowed(counted(c), GpuAction::DestroyDescriptorPool { sets }),
        after(counted(c), GpuAction::DestroyDescriptorPool { sets }) == counted(
            Census { descriptor_pool: false, descriptor_sets: 0, ..c },
        ),
{
    reveal(counted);
    assert(after(counted(c), GpuAction::DestroyDescriptorPool { sets }) =~= counted(
        Census { descriptor_pool: false, descriptor_sets: 0, ..c },
    ));
}

/// The destruction of the descriptor set layout.
proof fn lemma_destroy_set_layout(c: Census)
    requires
        c.descriptor_set_layout,
    ensures
        allowed(counted(c), GpuAction::DestroyDescriptorSetLayout),
        after(counted(c), GpuAction::DestroyDescriptorSetLayout) == counted(
            Census { descriptor_set_layout: false, ..c },
        ),
{
    reveal(counted);
    assert(after(counted(c), GpuAction::DestroyDescriptorSetLayout) =~= counted(
        Census { descriptor_set_layout: false, ..c },
    ));
}

/// The unmapping and destruction of one uniform buffer.
proof fn lemma_release_uniform(c: Census, i: u32, count: int)
    requires
        i < count,
        c.uniform_buffers == (i as int, count),
        c.uniform_mappings == (i as int, count),
    ensures
        run(
            counted(c),
            seq![
                GpuAction::UnmapUniformBuffer { index: i },
                GpuAction::DestroyUniformBuffer { index: i },
            ],
        ) == Some(
            counted(
                Census { uniform_buffers: (i + 1, count), uniform_mappings: (i + 1, count), ..c },
            ),
        ),
{
    lemma_run_nothing();
    let unmap = GpuAction::UnmapUniformBuffer { index: i };
    let destroy = GpuAction::DestroyUniformBuffer { index: i };
    let between = Census { uniform_mappings: (i + 1, count), ..c };
    let now = Census { uniform_buffers: (i + 1, count), ..between };
    let none = Seq::<GpuAction>::empty();
    lemma_unmap_uniform(c, i, count);
    lemma_destroy_uniform(between, i, count);
    lemma_run_last(counted(c), c, between, none, unmap);
    lemma_run_last(counted(c), between, now, none.push(unmap), destroy);
    assert(seq![unmap, destroy] =~= none.push(unmap).push(destroy));
}

/// What is counted when the first `n` uniform buffers are gone.
spec fn without_uniforms(c: Census, count: int, n: int) -> Census {
    Census { uniform_buffers: (n, count), uniform_mappings: (n, count), ..c }
}

/// The unmapping and destruction of the first `n` uniform buffers.
proof fn lemma_run_uniform_releases(c: Census, count: int, n: nat)
    requires
        n <= count <= u32::MAX,
    ensures
        run(counted(without_uniforms(c, count, 0)), uniform_releases(n)) == Some(
            counted(without_uniforms(c, count, n as int)),
        ),
    decreases n,
{
    let first = without_uniforms(c, count, 0);
    if n == 0 {
        lemma_run_nothing();
        assert(uniform_releases(n) == Seq::<GpuAction>::empty());
    } else {
        let before = without_uniforms(c, count, n - 1);
        let i = (n - 1) as u32;
        let front = uniform_releases((n - 1) as nat);
        let pair = seq![
            GpuAction::UnmapUniformBuffer { index: i },
            GpuAction::DestroyUniformBuffer { index: i },
        ];
        lemma_run_uniform_releases(c, count, (n - 1) as nat);
        lemma_release_uniform(before, i, count);
        lemma_run_concat(counted(first), front, pair);
        assert(uniform_releases(n) == front + pair);
    }
}

/// The frame objects, the sampler and the descriptors.
proof fn lemma_run_release_descriptors(c: Census, actions: Seq<GpuAction>)
    requires
        c.sync_objects == MAX_FRAMES_IN_FLIGHT,
        c.sampler,
        c.descriptor_pool,
        c.descriptor_sets == MAX_FRAMES_IN_FLIGHT,
        c.descriptor_set_layout,
        actions.len() == 4,
        actions[0] == (GpuAction::DestroySyncObjects { count: MAX_FRAMES_IN_FLIGHT }),
        actions[1] == GpuAction::DestroySampler,
        actions[2] == (GpuAction::DestroyDescriptorPool { sets: MAX_FRAMES_IN_FLIGHT }),
        actions[3] == GpuAction::DestroyDescriptorSetLayout,
    ensures
        run(counted(c), actions) == Some(
            counted(
                Census {
                    sync_objects: 0,
                    sampler: false,
                    descriptor_pool: false,
                    descriptor_sets: 0,
                    descriptor_set_layout: false,
                    ..c
                },
            ),
        ),
{
    lemma_run_nothing();
    let c1 = Census { sync_objects: 0, ..c };
    let c2 = Census { sampler: false, ..c1 };
    let c3 = Census { descriptor_pool: false, descriptor_sets: 0, ..c2 };
    let c4 = Census { descriptor_set_layout: false, ..c3 };
    lemma_destroy_sync_objects(c, MAX_FRAMES_IN_FLIGHT);
    lemma_destroy_sampler(c1);
    lemma_destroy_descriptor_pool(c2, MAX_FRAMES_IN_FLIGHT);
    lemma_destroy_set_layout(c3);
    let none = Seq::<GpuAction>::empty();
    lemma_run_last(counted(c), c, c1, none, actions[0]);
    lemma_run_last(counted(c), c1, c2, none.push(actions[0]), actions[1]);
    lemma_run_last(counted(c), c2, c3, none.push(actions[0]).push(actions[1]), actions[2]);
    lemma_run_last(
        counted(c),
        c3,
        c4,
        none.push(actions[0]).push(actions[1]).push(actions[2]),
        actions[3],
    );
    assert(actions =~= none.push(actions[0]).push(actions[1]).push(actions[2]).push(actions[3]));
}

/// The geometry buffers and the command pools.
proof fn lemma_run_release_pools(c: Census, actions: Seq<GpuAction>)
    requires
        c.index_buffer,
        c.vertex_buffer,
        c.transfer_pool,
        c.graphics_pool,
        actions.len() == 4,
        actions[0] == GpuAction::DestroyIndexBuffer,
        actions[1] == GpuAction::DestroyVertexBuffer,
        actions[2] == GpuAction::DestroyTransferCommandPool,
        actions[3] == GpuAction::DestroyGraphicsCommandPool,
    ensures
        run(counted(c), actions) == Some(
            counted(
                Census {
                    index_buffer: false,
                    vertex_buffer: false,
                    transfer_pool: false,
                    graphics_pool: false,
                    ..c
                },
            ),
        ),
{
    lemma_run_nothing();
    reveal(counted);
    let c1 = Census { index_buffer: false, ..c };
    let c2 = Census { vertex_buffer: false, ..c1 };
    let c3 = Census { transfer_pool: false, ..c2 };
    let c4 = Census { graphics_pool: false, ..c3 };
    assert(after(counted(c), actions[0]) =~= counted(c1));
    assert(after(counted(c1), actions[1]) =~= counted(c2));
    assert(after(counted(c2), actions[2]) =~= counted(c3));
    assert(after(counted(c3), actions[3]) =~= counted(c4));
    let none = Seq::<GpuAction>::empty();
    lemma_run_last(counted(c), c, c1, none, actions[0]);
    lemma_run_last(counted(c), c1, c2, none.push(actions[0]), actions[1]);
    lemma_run_last(counted(c), c2, c3, none.push(actions[0]).push(actions[1]), actions[2]);
    lemma_run_last(
        counted(c),
        c3,
        c4,
        none.push(actions[0]).push(actions[1]).push(actions[2]),
        actions[3],
    );
    assert(actions =~= none.push(actions[0]).push(actions[1]).push(actions[2]).push(actions[3]));
}

/// The texture indices of the renderables, in order.
pub open spec fn texture_indices(renderables: Seq<Renderable>) -> Seq<u32>
    decreases renderables.len(),
{
    if renderables.len() == 0 {
        Seq::empty()
    } else if renderables.last().texture_index is Some {
        texture_indices(renderables.drop_last()).push(renderables.last().texture_index->Some_0)
    } else {
        texture_indices(renderables.drop_last())
    }
}

/// As many texture indices were handed out as there are renderables with one;
/// in the order of the renderables they are 0, 1, 2 and so on. A renderable has
/// a texture exactly where it has an index, and it is the texture of that index.
pub open spec fn textures_in_order<T: UBO + Copy>(instance: RenderInstance<T>) -> bool {
    &&& texture_indices(instance.renderables@) == Seq::new(
        instance.descriptor_image_count as nat,
        |i: int| i as u32,
    )
    &&& forall|r: int|
        0 <= r < instance.renderables@.len() ==> (
        #[trigger] instance.renderables@[r]).texture == texture_of_index(
            instance.renderables@[r].texture_index,
        )
}

/// The texture of an index, where there is one.
pub open spec fn texture_of_index(index: Option<u32>) -> Option<Texture> {
    match index {
        Some(t) => Some(Texture(t)),
        None => None,
    }
}

/// The textures are those of the texture indices.
proof fn lemma_textures_of_indices(renderables: Seq<Renderable>)
    requires
        forall|r: int|
            0 <= r < renderables.len() ==> (#[trigger] renderables[r]).texture
                == texture_of_index(renderables[r].texture_index),
    ensures
        scene_textures(renderables) == texture_indices(renderables).map_values(
            |t: u32| Texture(t),
        ),
    decreases renderables.len(),
{
    if renderables.len() > 0 {
        let front = renderables.drop_last();
        assert forall|r: int| 0 <= r < front.len() implies (#[trigger] front[r]).texture
            == texture_of_index(front[r].texture_index) by {
            assert(front[r] == renderables[r]);
        }
        lemma_textures_of_indices(front);
        assert(renderables[renderables.len() - 1].texture == texture_of_index(
            renderables.last().texture_index,
        ));
    }
    assert(scene_textures(renderables) =~= texture_indices(renderables).map_values(
        |t: u32| Texture(t),
    ));
}

/// Textures in order are those of the indices that were handed out.
proof fn lemma_textures_in_order<T: UBO + Copy>(instance: RenderInstance<T>)
    requires
        textures_in_order(instance),
    ensures
        scene_textures(instance.renderables@) == Seq::new(
            instance.descriptor_image_count as nat,
            |i: int| Texture(i as u32),
        ),
        scene_textures(instance.renderables@).no_duplicates(),
{
    lemma_textures_of_indices(instance.renderables@);
    assert(scene_textures(instance.renderables@) =~= Seq::new(
        instance.descriptor_image_count as nat,
        |i: int| Texture(i as u32),
    ));
}

/// Law: taking the renderer down destroys each object that it owns once, none
/// before the last use of it, and leaves nothing behind.
pub proof fn law_teardown_leaves_nothing_behind<T: UBO + Copy>(instance: RenderInstance<T>)
    requires
        instance.wf(),
        textures_in_order(instance),
    ensures
        run(
            instance.owned(),
            teardown_actions(
                instance.renderables@,
                instance.framebuffers,
                instance.command_buffers,
                instance.descriptor_sets,
            ),
        ) == Some(Set::<Resource>::empty()),
{
    lemma_run_nothing();
    reveal(counted);
    lemma_owned_is_counted(instance);
    lemma_textures_in_order(instance);
    let textures = scene_textures(instance.renderables@);
    let count = MAX_FRAMES_IN_FLIGHT as int;
    let all = teardown_actions(
        instance.renderables@,
        instance.framebuffers,
        instance.command_buffers,
        instance.descriptor_sets,
    );
    let c0 = everybody(
        instance.framebuffers,
        instance.command_buffers,
        texture_set(instance.renderables@),
    );
    assert forall|k: int| 0 <= k < textures.len() implies c0.textures.contains(
        (#[trigger] textures[k]).0,
    ) by {
        assert(textures[k] == Texture(textures[k].0));
        assert(textures.contains(Texture(textures[k].0)));
    }
    let released = texture_releases(textures);
    lemma_run_texture_releases(c0, textures);
    let c1 = Census { textures: without(c0.textures, textures), ..c0 };
    let chain = seq![GpuAction::DestroySwapchain];
    let c2 = Census { swapchain: false, ..c1 };
    assert(run(counted(c1), chain) == Some(counted(c2))) by {
        assert(after(counted(c1), chain[0]) =~= counted(c2));
        let none = Seq::<GpuAction>::empty();
        lemma_run_last(counted(c1), c1, c2, none, chain[0]);
        assert(chain =~= none.push(chain[0]));
    }
    let cleanup = cleanup_actions(instance.framebuffers, instance.command_buffers);
    lemma_run_cleanup(c2, instance.framebuffers, instance.command_buffers);
    let c3 = Census {
        framebuffers: (0, 0),
        command_buffers: 0,
        pipeline: false,
        pipeline_layout: false,
        render_pass: false,
        ..c2
    };
    let at = released.len() as int + 1 + cleanup.len();
    let objects = all.subrange(at, at + 4);
    lemma_run_release_descriptors(c3, objects);
    let c4 = Census {
        sync_objects: 0,
        sampler: false,
        descriptor_pool: false,
        descriptor_sets: 0,
        descriptor_set_layout: false,
        ..c3
    };
    let uniforms = uniform_releases(MAX_FRAMES_IN_FLIGHT as nat);
    assert(c4 == without_uniforms(c4, count, 0));
    lemma_run_uniform_releases(c4, count, MAX_FRAMES_IN_FLIGHT as nat);
    let c5 = Census { uniform_buffers: (count, count), uniform_mappings: (count, count), ..c4 };
    let pools = all.skip(all.len() - 4);
    lemma_run_release_pools(c5, pools);
    let c6 = Census {
        index_buffer: false,
        vertex_buffer: false,
        transfer_pool: false,
        graphics_pool: false,
        ..c5
    };
    assert(all =~= released + chain + cleanup + objects + uniforms + pools);
    let alive = counted(c0);
    lemma_run_concat(alive, released, chain);
    lemma_run_concat(alive, released + chain, cleanup);
    lemma_run_concat(alive, released + chain + cleanup, objects);
    lemma_run_concat(alive, released + chain + cleanup + objects, uniforms);
    lemma_run_concat(alive, released + chain + cleanup + objects + uniforms, pools);
    assert(counted(c6) =~= Set::<Resource>::empty());
}

/// Law: a renderable with a texture gets an index that no other renderable has;
/// its texture is created and written to live descriptor sets, and is owned
/// once the renderable is added.
pub proof fn law_new_texture_is_owned_by_its_renderable<T: UBO + Copy>(
    before: RenderInstance<T>,
    added: Renderable,
    after_load: RenderInstance<T>,
)
    requires
        before.wf(),
        textures_in_order(before),
        before.descriptor_image_count < u32::MAX,
        added.texture_index == Some(before.descriptor_image_count),
        added.texture == Some(Texture(before.descriptor_image_count)),
        after_load.renderables@ == before.renderables@.push(added),
        after_load == (RenderInstance {
            descriptor_image_count: (before.descriptor_image_count + 1) as u32,
            renderables: after_load.renderables,
            vertex_alloc: after_load.vertex_alloc,
            index_alloc: after_load.index_alloc,
            ..before
        }),
    ensures
        textures_in_order(after_load),
        run(
            before.owned(),
            texture_actions(before.descriptor_sets, before.descriptor_image_count),
        ) == Some(after_load.owned()),
{
    lemma_run_nothing();
    reveal(counted);
    let new = before.descriptor_image_count;
    let old_textures = scene_textures(before.renderables@);
    let textures = scene_textures(after_load.renderables@);
    assert(after_load.renderables@.drop_last() =~= before.renderables@);
    assert(textures == old_textures.push(Texture(new)));
    lemma_textures_in_order(before);
    assert(textures_in_order(after_load)) by {
        assert(texture_indices(after_load.renderables@) =~= Seq::new(
            after_load.descriptor_image_count as nat,
            |i: int| i as u32,
        ));
        assert forall|r: int| 0 <= r < after_load.renderables@.len() implies (
        #[trigger] after_load.renderables@[r]).texture == texture_of_index(
            after_load.renderables@[r].texture_index,
        ) by {
            if r < before.renderables@.len() {
                assert(after_load.renderables@[r] == before.renderables@[r]);
            }
        }
    }
    lemma_owned_is_counted(before);
    lemma_owned_is_counted(after_load);
    let c0 = everybody(
        before.framebuffers,
        before.command_buffers,
        texture_set(before.renderables@),
    );
    let c1 = Census { textures: c0.textures.insert(new), ..c0 };
    assert forall|t: u32| textures.contains(Texture(t)) <==> (old_textures.contains(Texture(t))
        || t == new) by {
        if textures.contains(Texture(t)) {
            let k = choose|k: int| 0 <= k < textures.len() && textures[k] == Texture(t);
            if k < old_textures.len() {
                assert(old_textures[k] == Texture(t));
            }
        }
        if old_textures.contains(Texture(t)) {
            let k = choose|k: int| 0 <= k < old_textures.len() && old_textures[k] == Texture(t);
            assert(textures[k] == Texture(t));
        }
        if t == new {
            assert(textures[textures.len() - 1] == Texture(t));
        }
    }
    assert(!c0.textures.contains(new)) by {
        if old_textures.contains(Texture(new)) {
            let k = choose|k: int| 0 <= k < old_textures.len() && old_textures[k] == Texture(new);
            assert(old_textures[k].0 < new);
        }
    }
    assert(texture_set(after_load.renderables@) =~= c1.textures);
    let all = texture_actions(before.descriptor_sets, new);
    let create = seq![all[0]];
    let writes = all.drop_first();
    assert(run(counted(c0), create) == Some(counted(c1))) by {
        assert(after(counted(c0), create[0]) =~= counted(c1));
        let none = Seq::<GpuAction>::empty();
        lemma_run_last(counted(c0), c0, c1, none, create[0]);
        assert(create =~= none.push(create[0]));
    }
    assert forall|k: int| 0 <= k < writes.len() implies only_uses(
        counted(c1),
        #[trigger] writes[k],
    ) by {
        assert(writes[k] == all[k + 1]);
    }
    lemma_run_uses(counted(c1), writes);
    lemma_run_concat(counted(c0), create, writes);
    assert(all =~= create + writes);
}

} // verus!
