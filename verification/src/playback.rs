//! What a command buffer does when the device executes it: a small model of the
//! device, and what the recorded commands come to in it.

use vstd::prelude::*;

use crate::actions::GpuAction;
use crate::frame::draw_actions;
use crate::pipeline::{pipeline_for, PushConstantRange, VertexInput};
use crate::plans::{framebuffer_actions, recorded, recordings};
use crate::recording::{
    command_stream, drawable, draw_call, is_draw, lemma_scene_draws_only_draw, mesh_draw,
    mesh_draws, mesh_total, record_commands, scene_draws, stream_end, stream_start, Command,
};
use crate::scene::{Renderable, Transform};
use crate::targets::AttachmentView;
use crate::vulkan::Extent2D;

verus! {

/// What is bound while a command buffer is executed.
pub ghost struct Playing {
    pub recording: bool,
    /// The framebuffer of the open render pass.
    pub framebuffer: Option<u32>,
    pub pipeline: bool,
    /// Where the vertices of binding 0 start.
    pub vertices_at: Option<u64>,
    /// Where the indices start, and how many bytes each takes.
    pub indices_at: Option<(u64, int)>,
    /// The descriptor set at position 0.
    pub set: Option<u32>,
    pub transform: Option<(PushConstantRange, Transform)>,
    pub texture: Option<(PushConstantRange, u32)>,
}

/// A draw call, with all that was bound when it was executed.
pub ghost struct Drawn {
    pub bound: Playing,
    pub index_count: u32,
    pub instance_count: u32,
    pub first_index: u32,
    pub vertex_offset: i32,
    pub first_instance: u32,
}

/// Nothing is bound.
pub open spec fn nothing_bound() -> Playing {
    Playing {
        recording: false,
        framebuffer: None,
        pipeline: false,
        vertices_at: None,
        indices_at: None,
        set: None,
        transform: None,
        texture: None,
    }
}

/// The bytes of an index of a type: two for type 0, four for type 1.
pub open spec fn index_width(index_type: i32) -> int {
    if index_type == 1 {
        4
    } else {
        2
    }
}

/// What is bound after a command.
pub open spec fn played_one(state: Playing, command: Command) -> Playing {
    match command {
        Command::BeginCommandBuffer { .. } => Playing { recording: true, ..nothing_bound() },
        Command::BeginRenderPass { framebuffer, .. } => Playing {
            framebuffer: Some(framebuffer),
            ..state
        },
        Command::BindPipeline { bind_point } => Playing { pipeline: bind_point == 0, ..state },
        Command::BindVertexBuffer { first_binding, offset } => if first_binding == 0 {
            Playing { vertices_at: Some(offset), ..state }
        } else {
            state
        },
        Command::BindIndexBuffer { offset, index_type } => Playing {
            indices_at: Some((offset, index_width(index_type))),
            ..state
        },
        Command::BindDescriptorSet { bind_point, first_set, set } => if bind_point == 0 && first_set
            == 0 {
            Playing { set: Some(set), ..state }
        } else {
            state
        },
        Command::PushTransform { range, transform } => Playing {
            transform: Some((range, transform)),
            ..state
        },
        Command::PushTextureIndex { range, texture_index } => Playing {
            texture: Some((range, texture_index)),
            ..state
        },
        Command::DrawIndexed { .. } => state,
        Command::EndRenderPass => Playing { framebuffer: None, ..state },
        Command::EndCommandBuffer => Playing { recording: false, ..state },
    }
}

/// What is bound after commands.
pub open spec fn played(state: Playing, commands: Seq<Command>) -> Playing
    decreases commands.len(),
{
    if commands.len() == 0 {
        state
    } else {
        played_one(played(state, commands.drop_last()), commands.last())
    }
}

/// The draw calls of commands, in the order in which they are executed.
pub open spec fn drawn(state: Playing, commands: Seq<Command>) -> Seq<Drawn>
    decreases commands.len(),
{
    if commands.len() == 0 {
        Seq::empty()
    } else {
        let before = drawn(state, commands.drop_last());
        match commands.last() {
            Command::DrawIndexed {
                index_count,
                instance_count,
                first_index,
                vertex_offset,
                first_instance,
            } => before.push(
                Drawn {
                    bound: played(state, commands.drop_last()),
                    index_count,
                    instance_count,
                    first_index,
                    vertex_offset,
                    first_instance,
                },
            ),
            _ => before,
        }
    }
}

/// A render pass to framebuffer `index` is open, and the pipeline, the vertices,
/// the four-byte indices and descriptor set `index` are bound.
pub open spec fn is_ready(state: Playing, index: u32) -> bool {
    &&& state.recording
    &&& state.framebuffer == Some(index)
    &&& state.pipeline
    &&& state.vertices_at == Some(0u64)
    &&& state.indices_at == Some((0u64, 4int))
    &&& state.set == Some(index)
}

/// A draw call draws mesh `i` of a renderable to framebuffer `index`: all its
/// indices, from where its indices and its vertices lie in the buffers, once, at
/// its own instance, with the texture of the renderable.
pub open spec fn draws_mesh(draw: Drawn, index: u32, renderable: Renderable, i: int) -> bool {
    let mesh = renderable.meshes@[i];
    &&& is_ready(draw.bound, index)
    &&& draw.bound.transform is Some
    &&& draw.bound.transform->Some_0.1 == renderable.instances@[i]
    &&& draw.bound.texture is Some
    &&& renderable.texture_index is Some ==> draw.bound.texture->Some_0.1
        == renderable.texture_index->Some_0
    &&& renderable.texture_index is None ==> draw.bound.texture->Some_0.1 == 0
    &&& draw.index_count == mesh.index_count as u32
    &&& draw.instance_count == 1
    &&& draw.first_instance == 0
    &&& draw.first_index == (mesh.index_buffer_ptr.offset as int / 4) as u32
    &&& draw.vertex_offset == (mesh.vertex_buffer_ptr.offset as int / 32) as i32
    &&& draw.bound.transform->Some_0.0 == (PushConstantRange {
        stage_flags: 1,
        offset: 0,
        size: 64,
    })
    &&& draw.bound.texture->Some_0.0 == (PushConstantRange {
        stage_flags: 16,
        offset: 64,
        size: 4,
    })
}

/// Commands one after the other.
proof fn lemma_played_concat(state: Playing, first: Seq<Command>, second: Seq<Command>)
    ensures
        played(state, first + second) == played(played(state, first), second),
        drawn(state, first + second) == drawn(state, first) + drawn(
            played(state, first),
            second,
        ),
    decreases second.len(),
{
    if second.len() == 0 {
        assert(first + second =~= first);
        assert(drawn(state, first) + drawn(played(state, first), second) =~= drawn(state, first));
    } else {
        lemma_played_concat(state, first, second.drop_last());
        assert((first + second).drop_last() =~= first + second.drop_last());
        assert((first + second).last() == second.last());
        assert(drawn(state, first + second) =~= drawn(state, first) + drawn(
            played(state, first),
            second,
        ));
    }
}

/// The commands of one mesh are one draw call of it.
proof fn lemma_mesh_is_drawn(state: Playing, index: u32, renderable: Renderable, i: int)
    requires
        is_ready(state, index),
    ensures
        is_ready(played(state, mesh_draw(renderable, i)), index),
        drawn(state, mesh_draw(renderable, i)).len() == 1,
        draws_mesh(drawn(state, mesh_draw(renderable, i))[0], index, renderable, i),
{
    let all = mesh_draw(renderable, i);
    let two = all.drop_last();
    let one = two.drop_last();
    assert(all.len() == 3 && two.len() == 2 && one.len() == 1);
    assert(one.drop_last().len() == 0);
    assert(two.last() == all[1]);
    assert(one.last() == all[0]);
    reveal_with_fuel(played, 4);
    reveal_with_fuel(drawn, 4);
}

/// The commands of the first `n` meshes draw them in order.
proof fn lemma_meshes_are_drawn(state: Playing, index: u32, renderable: Renderable, n: nat)
    requires
        is_ready(state, index),
    ensures
        is_ready(played(state, mesh_draws(renderable, n)), index),
        drawn(state, mesh_draws(renderable, n)).len() == n,
        forall|i: int|
            0 <= i < n ==> draws_mesh(
                #[trigger] drawn(state, mesh_draws(renderable, n))[i],
                index,
                renderable,
                i,
            ),
    decreases n,
{
    if n > 0 {
        let front = mesh_draws(renderable, (n - 1) as nat);
        lemma_meshes_are_drawn(state, index, renderable, (n - 1) as nat);
        lemma_played_concat(state, front, mesh_draw(renderable, n - 1));
        lemma_mesh_is_drawn(played(state, front), index, renderable, n - 1);
        let all = drawn(state, mesh_draws(renderable, n));
        assert forall|i: int| 0 <= i < n implies draws_mesh(
            #[trigger] all[i],
            index,
            renderable,
            i,
        ) by {
            if i < n - 1 {
                assert(all[i] == drawn(state, front)[i]);
            }
        }
    }
}

/// The commands of the scene draw every mesh in its turn.
proof fn lemma_scene_is_drawn(state: Playing, index: u32, renderables: Seq<Renderable>)
    requires
        is_ready(state, index),
    ensures
        is_ready(played(state, scene_draws(renderables)), index),
        drawn(state, scene_draws(renderables)).len() == mesh_total(renderables),
        forall|r: int, i: int|
            0 <= r < renderables.len() && 0 <= i < renderables[r].meshes@.len() ==> #[trigger]
            is_drawn_at(drawn(state, scene_draws(renderables)), index, renderables, r, i),
    decreases renderables.len(),
{
    if renderables.len() > 0 {
        let front = renderables.drop_last();
        let last = renderables.last();
        lemma_scene_is_drawn(state, index, front);
        let between = played(state, scene_draws(front));
        lemma_meshes_are_drawn(between, index, last, last.meshes@.len());
        lemma_played_concat(state, scene_draws(front), mesh_draws(last, last.meshes@.len()));
        let before = drawn(state, scene_draws(front));
        let all = drawn(state, scene_draws(renderables));
        assert forall|r: int, i: int|
            0 <= r < renderables.len() && 0 <= i < renderables[r].meshes@.len() implies #[trigger]
        is_drawn_at(all, index, renderables, r, i) by {
            if r < front.len() {
                assert(front[r] == renderables[r]);
                assert(is_drawn_at(before, index, front, r, i));
                assert(front.take(r) =~= renderables.take(r));
            } else {
                assert(renderables.take(r) =~= front);
                let rest = drawn(between, mesh_draws(last, last.meshes@.len()));
                assert(draws_mesh(rest[i], index, last, i));
                assert(all[mesh_total(front) + i] == rest[i]);
            }
        }
    }
}

/// Mesh `i` of renderable `r` is drawn behind all meshes before it.
pub open spec fn is_drawn_at(
    draws: Seq<Drawn>,
    index: u32,
    renderables: Seq<Renderable>,
    r: int,
    i: int,
) -> bool {
    let at = mesh_total(renderables.take(r)) + i;
    &&& 0 <= at < draws.len()
    &&& draws_mesh(draws[at], index, renderables[r], i)
}

/// Law: executing command buffer `index` draws every mesh of every renderable
/// once, in order and nothing else, inside a render pass to framebuffer `index`,
/// each with its own geometry, instance and texture; in the end the render pass
/// is closed and the recording ended.
pub proof fn law_executing_a_command_buffer_draws_the_scene(
    index: u32,
    extent: Extent2D,
    renderables: Seq<Renderable>,
    r: int,
    i: int,
)
    requires
        0 <= r < renderables.len(),
        0 <= i < renderables[r].meshes@.len(),
    ensures
        ({
            let stream = command_stream(index, extent, renderables);
            let draws = drawn(nothing_bound(), stream);
            let end = played(nothing_bound(), stream);
            &&& draws.len() == mesh_total(renderables)
            &&& is_drawn_at(draws, index, renderables, r, i)
            &&& end.framebuffer is None
            &&& !end.recording
        }),
{
    lemma_stream_is_played(index, extent, renderables);
}

/// Law: executing a command buffer without meshes to draw draws nothing, and
/// still opens and closes its render pass.
pub proof fn law_executing_an_empty_scene_draws_nothing(
    index: u32,
    extent: Extent2D,
    renderables: Seq<Renderable>,
)
    requires
        mesh_total(renderables) == 0,
    ensures
        drawn(nothing_bound(), command_stream(index, extent, renderables)).len() == 0,
        played(nothing_bound(), command_stream(index, extent, renderables)).framebuffer is None,
        !played(nothing_bound(), command_stream(index, extent, renderables)).recording,
{
    lemma_stream_is_played(index, extent, renderables);
}

/// What a whole command buffer comes to.
proof fn lemma_stream_is_played(index: u32, extent: Extent2D, renderables: Seq<Renderable>)
    ensures
        ({
            let stream = command_stream(index, extent, renderables);
            let draws = drawn(nothing_bound(), stream);
            let end = played(nothing_bound(), stream);
            &&& draws.len() == mesh_total(renderables)
            &&& forall|r: int, i: int|
                0 <= r < renderables.len() && 0 <= i < renderables[r].meshes@.len() ==> #[trigger]
                is_drawn_at(draws, index, renderables, r, i)
            &&& end.framebuffer is None
            &&& !end.recording
        }),
{
    let start = stream_start(index, extent);
    let scene = scene_draws(renderables);
    let none = nothing_bound();
    let ready = played(none, start);
    assert(is_ready(ready, index) && drawn(none, start).len() == 0) by {
        let s5 = start.drop_last();
        let s4 = s5.drop_last();
        let s3 = s4.drop_last();
        let s2 = s3.drop_last();
        let s1 = s2.drop_last();
        assert(s1.drop_last().len() == 0);
        assert(s5.last() == start[4] && s4.last() == start[3] && s3.last() == start[2]);
        assert(s2.last() == start[1] && s1.last() == start[0]);
        reveal_with_fuel(played, 7);
        reveal_with_fuel(drawn, 7);
    }
    lemma_scene_is_drawn(ready, index, renderables);
    let shown = played(ready, scene);
    let end = stream_end();
    assert(drawn(shown, end).len() == 0 && played(shown, end).framebuffer is None && !played(
        shown,
        end,
    ).recording) by {
        let e1 = end.drop_last();
        assert(e1.drop_last().len() == 0);
        assert(e1.last() == end[0]);
        reveal_with_fuel(played, 3);
        reveal_with_fuel(drawn, 3);
    }
    lemma_played_concat(none, start, scene);
    lemma_played_concat(none, start + scene, end);
    assert(drawn(none, start) + drawn(ready, scene) =~= drawn(ready, scene));
    assert(drawn(none, command_stream(index, extent, renderables)) =~= drawn(ready, scene));
}

/// Law: command buffer `index` opens one render pass, to framebuffer `index`,
/// over the whole of its area from the origin, and clears it to opaque black and
/// the far depth. The commands can be submitted again while they are executed.
pub proof fn law_command_buffer_opens_one_render_pass(
    index: u32,
    extent: Extent2D,
    renderables: Seq<Renderable>,
)
    ensures
        ({
            let stream = command_stream(index, extent, renderables);
            &&& exists|k: int| 0 <= k < stream.len() && #[trigger] stream[k] is BeginRenderPass
            &&& forall|k: int, l: int|
                0 <= k < stream.len() && 0 <= l < stream.len() && #[trigger] stream[k] is BeginRenderPass
                    && #[trigger] stream[l] is BeginRenderPass ==> k == l
            &&& forall|k: int|
                0 <= k < stream.len() ==> {
                    &&& #[trigger] stream[k] matches Command::BeginRenderPass {
                        framebuffer,
                        x,
                        y,
                        extent: area,
                        clear,
                        contents,
                    } ==> {
                        &&& framebuffer == index
                        &&& x == 0 && y == 0 && area == extent
                        &&& clear.red == 0 && clear.green == 0 && clear.blue == 0
                        &&& clear.alpha == 0x3f80_0000 && clear.depth == 0x3f80_0000
                        &&& clear.stencil == 0
                        &&& contents == 0
                    }
                    &&& stream[k] matches Command::BeginCommandBuffer { usage } ==> usage == 4
                }
        }),
{
    let stream = command_stream(index, extent, renderables);
    lemma_scene_draws_only_draw(renderables);
    let start = stream_start(index, extent);
    let draws = scene_draws(renderables);
    assert forall|k: int| 0 <= k < stream.len() implies (if k < 6 {
        #[trigger] stream[k] == start[k]
    } else if k < 6 + draws.len() {
        is_draw(stream[k])
    } else {
        stream[k] is EndRenderPass || stream[k] is EndCommandBuffer
    }) by {
        if k >= 6 && k < 6 + draws.len() {
            assert(stream[k] == draws[k - 6]);
        }
        if k >= 6 + draws.len() {
            assert(stream[k] == stream_end()[k - 6 - draws.len()]);
        }
    }
    assert(stream[1] is BeginRenderPass);
}

/// The framebuffers that the render passes of commands are opened on.
pub open spec fn opened(commands: Seq<Command>) -> Set<u32> {
    Set::new(
        |f: u32|
            exists|k: int|
                0 <= k < commands.len() && (#[trigger] commands[k] matches Command::BeginRenderPass {
                    framebuffer,
                    ..
                } && framebuffer == f),
    )
}

/// Law: command buffer `i` renders into the framebuffer that resolves into
/// swapchain image `i`, and into no other: different command buffers render to
/// different images.
pub proof fn law_command_buffer_renders_to_its_image(
    images: u32,
    i: u32,
    extent: Extent2D,
    renderables: Seq<Renderable>,
    f: u32,
)
    requires
        i < images,
        opened(command_stream(i, extent, renderables)).contains(f),
    ensures
        exists|k: int|
            0 <= k < framebuffer_actions(images, extent).len() && (#[trigger] framebuffer_actions(
                images,
                extent,
            )[k] matches GpuAction::CreateFramebuffer { index, desc } && index == f && desc.resolve
                == AttachmentView::SwapchainImage(i)),
        forall|k: int|
            0 <= k < framebuffer_actions(images, extent).len() ==> (#[trigger] framebuffer_actions(
                images,
                extent,
            )[k] matches GpuAction::CreateFramebuffer { index, desc } && (index == f <==> desc.resolve
                == AttachmentView::SwapchainImage(i))),
{
    law_command_buffer_opens_one_render_pass(i, extent, renderables);
    let all = framebuffer_actions(images, extent);
    assert(all[i as int] is CreateFramebuffer);
}

/// Law: every command buffer has a render pass to render with.
pub proof fn law_command_buffer_renders_somewhere(
    i: u32,
    extent: Extent2D,
    renderables: Seq<Renderable>,
)
    ensures
        opened(command_stream(i, extent, renderables)).contains(i),
{
    law_command_buffer_opens_one_render_pass(i, extent, renderables);
    let stream = command_stream(i, extent, renderables);
    let k = choose|k: int| 0 <= k < stream.len() && #[trigger] stream[k] is BeginRenderPass;
    assert(stream[k] is BeginRenderPass);
}

/// Law: what is recorded into command buffer `i` of a rebuild renders to
/// framebuffer `i` and binds descriptor set `i`, for each of them.
pub proof fn law_recordings_keep_to_their_buffer(
    count: nat,
    extent: Extent2D,
    renderables: Seq<Renderable>,
)
    requires
        count <= u32::MAX,
    ensures
        forall|k: int|
            0 <= k < recordings(count, extent, renderables).len() ==> (#[trigger] recordings(
                count,
                extent,
                renderables,
            )[k] matches GpuAction::Record { buffer, command } && keeps_to(buffer, command, count)),
    decreases count,
{
    if count > 0 {
        let front = recordings((count - 1) as nat, extent, renderables);
        let buffer = (count - 1) as u32;
        let stream = command_stream(buffer, extent, renderables);
        let back = recorded(buffer, stream);
        let all = recordings(count, extent, renderables);
        law_recordings_keep_to_their_buffer((count - 1) as nat, extent, renderables);
        lemma_scene_draws_only_draw(renderables);
        let start = stream_start(buffer, extent);
        let draws = scene_draws(renderables);
        assert forall|k: int| 0 <= k < all.len() implies (#[trigger] all[k] matches GpuAction::Record {
            buffer,
            command,
        } && keeps_to(buffer, command, count)) by {
            if k < front.len() {
                assert(all[k] == front[k]);
            } else {
                let j = k - front.len();
                assert(all[k] == back[j]);
                assert(back[j] == GpuAction::Record { buffer, command: stream[j] });
                if j < 6 {
                    assert(stream[j] == start[j]);
                } else if j < 6 + draws.len() {
                    assert(stream[j] == draws[j - 6]);
                    assert(is_draw(stream[j]));
                } else {
                    assert(stream[j] == stream_end()[j - 6 - draws.len()]);
                }
            }
        }
    }
}

/// A command of a command buffer keeps to the framebuffer and the descriptor set
/// of the same position.
pub open spec fn keeps_to(buffer: u32, command: Command, count: nat) -> bool {
    &&& buffer < count
    &&& command matches Command::BeginRenderPass { framebuffer, .. } ==> framebuffer == buffer
    &&& command matches Command::BindDescriptorSet { set, .. } ==> set == buffer
}

/// Law: the constants that a draw call pushes are those that the pipeline reads,
/// and they do not overlap.
pub proof fn law_pushed_constants_are_read_by_the_pipeline(
    index_count: usize,
    transform: Transform,
    first_index: u32,
    vertex_offset: i32,
    texture_index: u32,
    extent: Extent2D,
    msaa_samples: u32,
    vertex_input: VertexInput,
    k: int,
)
    requires
        0 <= k < draw_call(
            index_count,
            transform,
            first_index,
            vertex_offset,
            texture_index,
        ).len(),
    ensures
        ({
            let pipeline = pipeline_for(extent, msaa_samples, vertex_input);
            let command = draw_call(
                index_count,
                transform,
                first_index,
                vertex_offset,
                texture_index,
            )[k];
            &&& command matches Command::PushTransform { range, transform: pushed } ==> {
                &&& range == pipeline.transform_range
                &&& pushed == transform
                &&& range.size == 4 * 4 * 4
                &&& range.stage_flags == pipeline.vertex_stage.stage
            }
            &&& command matches Command::PushTextureIndex { range, texture_index: pushed } ==> {
                &&& range == pipeline.texture_index_range
                &&& pushed == texture_index
                &&& range.size == 4
                &&& range.offset >= pipeline.transform_range.offset + pipeline.transform_range.size
                &&& range.stage_flags == pipeline.fragment_stage.stage
            }
        }),
{
}

/// Law: one instance for each mesh is enough to draw a scene, and fewer are not.
pub proof fn law_drawable_means_an_instance_for_each_mesh(renderables: Seq<Renderable>)
    ensures
        drawable(renderables) <==> forall|r: int|
            0 <= r < renderables.len() ==> !((#[trigger] renderables[r]).instances@.len()
                < renderables[r].meshes@.len()),
{
}

/// Law: whatever is recorded for image `index` renders to the framebuffer of that
/// image: executing the recorded commands opens one render pass, to framebuffer
/// `index`, and draws every mesh there with descriptor set `index`.
pub proof fn law_recorded_commands_render_to_their_image(
    index: u32,
    extent: Extent2D,
    renderables: Vec<Renderable>,
    commands: Vec<Command>,
    images: u32,
    k: int,
    d: int,
)
    requires
        call_ensures(record_commands, (index, extent, &renderables), commands),
        index < images,
        0 <= k < commands@.len(),
    ensures
        commands@[k] matches Command::BeginRenderPass { framebuffer, extent: area, .. } ==> {
            &&& framebuffer == index
            &&& area == extent
            &&& framebuffer_actions(images, extent)[framebuffer as int] matches GpuAction::CreateFramebuffer {
                index: created,
                desc,
            } && created == framebuffer && desc.resolve == AttachmentView::SwapchainImage(index)
        },
        commands@[k] matches Command::BindDescriptorSet { set, .. } ==> set == index,
        opened(commands@) == set![index],
        0 <= d < drawn(nothing_bound(), commands@).len() ==> is_ready(
            drawn(nothing_bound(), commands@)[d].bound,
            index,
        ),
{
    law_command_buffer_opens_one_render_pass(index, extent, renderables@);
    law_command_buffer_renders_somewhere(index, extent, renderables@);
    lemma_stream_is_played(index, extent, renderables@);
    if 0 <= d < drawn(nothing_bound(), commands@).len() {
        lemma_draw_belongs_to_a_mesh(renderables@, d as nat);
        let (r, i) = choose|r: int, i: int| #[trigger] is_mesh_at(renderables@, r, i, d);
        assert(is_drawn_at(drawn(nothing_bound(), commands@), index, renderables@, r, i));
    }
    assert(opened(commands@) =~= set![index]) by {
        assert forall|f: u32| opened(commands@).contains(f) implies f == index by {}
    }
    lemma_stream_binds_its_set(index, extent, renderables@, k);
}

/// A bound descriptor set is that of the command buffer.
proof fn lemma_stream_binds_its_set(
    index: u32,
    extent: Extent2D,
    renderables: Seq<Renderable>,
    k: int,
)
    requires
        0 <= k < command_stream(index, extent, renderables).len(),
    ensures
        command_stream(index, extent, renderables)[k] matches Command::BindDescriptorSet {
            set,
            ..
        } ==> set == index,
{
    let stream = command_stream(index, extent, renderables);
    let draws = scene_draws(renderables);
    lemma_scene_draws_only_draw(renderables);
    if k < 6 {
        assert(stream[k] == stream_start(index, extent)[k]);
    } else if k < 6 + draws.len() {
        assert(stream[k] == draws[k - 6]);
        assert(is_draw(stream[k]));
    } else {
        assert(stream[k] == stream_end()[k - 6 - draws.len()]);
    }
}

/// Mesh `i` of renderable `r` is mesh `d` of the scene.
pub open spec fn is_mesh_at(renderables: Seq<Renderable>, r: int, i: int, d: int) -> bool {
    &&& 0 <= r < renderables.len()
    &&& 0 <= i < renderables[r].meshes@.len()
    &&& d == mesh_total(renderables.take(r)) + i
}

/// Every draw call is that of a mesh.
proof fn lemma_draw_belongs_to_a_mesh(renderables: Seq<Renderable>, d: nat)
    requires
        d < mesh_total(renderables),
    ensures
        exists|r: int, i: int| #[trigger] is_mesh_at(renderables, r, i, d as int),
    decreases renderables.len(),
{
    let front = renderables.drop_last();
    let last = renderables.len() - 1;
    if d < mesh_total(front) {
        lemma_draw_belongs_to_a_mesh(front, d);
        let (r, i) = choose|r: int, i: int| #[trigger] is_mesh_at(front, r, i, d as int);
        assert(front.take(r) =~= renderables.take(r));
        assert(is_mesh_at(renderables, r, i, d as int));
    } else {
        assert(renderables.take(last) =~= front);
        assert(is_mesh_at(renderables, last, d - mesh_total(front), d as int));
    }
}

/// Law: the image that a frame presents is the one that the command buffer which it
/// submits was recorded for: the framebuffer that is rendered to resolves into the
/// presented image, whatever set of frame objects the frame uses.
pub proof fn law_presented_image_is_the_rendered_one(
    images: u32,
    extent: Extent2D,
    renderables: Seq<Renderable>,
    sync: u32,
    image_index: u32,
    has_uniform: bool,
    k: int,
    j: int,
    f: u32,
)
    requires
        image_index < images,
        0 <= k < draw_actions(sync, image_index, has_uniform).len(),
        draw_actions(sync, image_index, has_uniform)[k] is Submit,
        0 <= j < draw_actions(sync, image_index, has_uniform).len(),
        draw_actions(sync, image_index, has_uniform)[j] is Present,
        opened(
            command_stream(
                draw_actions(sync, image_index, has_uniform)[k]->command_buffer,
                extent,
                renderables,
            ),
        ).contains(f),
    ensures
        ({
            let frame = draw_actions(sync, image_index, has_uniform);
            &&& frame[j]->Present_image_index == image_index
            &&& framebuffer_actions(images, extent)[f as int] matches GpuAction::CreateFramebuffer {
                index,
                desc,
            } && index == f && desc.resolve == AttachmentView::SwapchainImage(
                frame[j]->Present_image_index,
            )
        }),
{
    let frame = draw_actions(sync, image_index, has_uniform);
    law_command_buffer_opens_one_render_pass(frame[k]->command_buffer, extent, renderables);
    assert(framebuffer_actions(images, extent)[f as int] is CreateFramebuffer);
}

} // verus!
