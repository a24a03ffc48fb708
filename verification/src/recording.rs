//! The commands that a command buffer is recorded with.

use vstd::prelude::*;

use crate::descriptors::PAGE_SIZE;
use crate::pipeline::{
    texture_index_push_range, texture_index_range, transform_push_range, transform_range,
    PushConstantRange,
};
use crate::scene::{Mesh, Renderable, Transform, INDEX_SIZE, VERTEX_SIZE};
use crate::vulkan::{
    Extent2D, BIND_POINT_GRAPHICS, COMMAND_BUFFER_USAGE_SIMULTANEOUS_USE, FLOAT_ONE, FLOAT_ZERO,
    INDEX_TYPE_UINT32, SUBPASS_CONTENTS_INLINE,
};

verus! {

/// What the attachments are cleared to, as bits.
#[derive(Clone, Copy, Debug, PartialEq, Eq, Structural)]
pub struct ClearValues {
    pub red: u32,
    pub green: u32,
    pub blue: u32,
    pub alpha: u32,
    pub depth: u32,
    pub stencil: u32,
}

/// A command of a command buffer.
#[derive(Clone, Copy, Debug, PartialEq, Eq, Structural)]
pub enum Command {
    BeginCommandBuffer { usage: u32 },
    BeginRenderPass {
        framebuffer: u32,
        x: i32,
        y: i32,
        extent: Extent2D,
        clear: ClearValues,
        contents: i32,
    },
    BindPipeline { bind_point: i32 },
    BindVertexBuffer { first_binding: u32, offset: u64 },
    BindIndexBuffer { offset: u64, index_type: i32 },
    BindDescriptorSet { bind_point: i32, first_set: u32, set: u32 },
    PushTransform { range: PushConstantRange, transform: Transform },
    PushTextureIndex { range: PushConstantRange, texture_index: u32 },
    DrawIndexed {
        index_count: u32,
        instance_count: u32,
        first_index: u32,
        vertex_offset: i32,
        first_instance: u32,
    },
    EndRenderPass,
    EndCommandBuffer,
}

/// The position of the first index of a mesh in the index buffer.
pub open spec fn first_index_of(mesh: Mesh) -> u32 {
    (mesh.index_buffer_ptr.offset / INDEX_SIZE) as u32
}

/// The position of the first vertex of a mesh in the vertex buffer.
pub open spec fn vertex_offset_of(mesh: Mesh) -> i32 {
    (mesh.vertex_buffer_ptr.offset / VERTEX_SIZE) as i32
}

/// Every mesh has an instance to be drawn at.
pub open spec fn drawable(renderables: Seq<Renderable>) -> bool {
    forall|r: int|
        0 <= r < renderables.len() ==> (#[trigger] renderables[r]).meshes@.len()
            <= renderables[r].instances@.len()
}

/// The commands of one draw call: its push constants, then the call.
pub open spec fn draw_call(
    index_count: usize,
    transform: Transform,
    first_index: u32,
    vertex_offset: i32,
    texture_index: u32,
) -> Seq<Command> {
    seq![
        Command::PushTransform { range: transform_range(), transform },
        Command::PushTextureIndex { range: texture_index_range(), texture_index },
        Command::DrawIndexed {
            index_count: index_count as u32,
            instance_count: 1,
            first_index,
            vertex_offset,
            first_instance: 0,
        },
    ]
}

/// The texture that a renderable is drawn with.
pub open spec fn texture_of(renderable: Renderable) -> u32 {
    match renderable.texture_index {
        Some(t) => t,
        None => 0,
    }
}

/// The commands that draw mesh `idx` of a renderable.
pub open spec fn mesh_draw(renderable: Renderable, idx: int) -> Seq<Command> {
    draw_call(
        renderable.meshes@[idx].index_count,
        renderable.instances@[idx],
        first_index_of(renderable.meshes@[idx]),
        vertex_offset_of(renderable.meshes@[idx]),
        texture_of(renderable),
    )
}

/// The commands that draw the first `n` meshes of a renderable.
pub open spec fn mesh_draws(renderable: Renderable, n: nat) -> Seq<Command>
    decreases n,
{
    if n == 0 {
        Seq::empty()
    } else {
        mesh_draws(renderable, (n - 1) as nat) + mesh_draw(renderable, n - 1)
    }
}

/// The commands that draw all meshes of all renderables, in order.
pub open spec fn scene_draws(renderables: Seq<Renderable>) -> Seq<Command>
    decreases renderables.len(),
{
    if renderables.len() == 0 {
        Seq::empty()
    } else {
        scene_draws(renderables.drop_last()) + mesh_draws(
            renderables.last(),
            renderables.last().meshes@.len(),
        )
    }
}

/// What the attachments are cleared to: opaque black, the far depth.
pub open spec fn clear_values() -> ClearValues {
    ClearValues {
        red: FLOAT_ZERO,
        green: FLOAT_ZERO,
        blue: FLOAT_ZERO,
        alpha: FLOAT_ONE,
        depth: FLOAT_ONE,
        stencil: 0,
    }
}

/// The commands before the draw calls of command buffer `index`.
pub open spec fn stream_start(index: u32, extent: Extent2D) -> Seq<Command> {
    seq![
        Command::BeginCommandBuffer { usage: COMMAND_BUFFER_USAGE_SIMULTANEOUS_USE },
        Command::BeginRenderPass {
            framebuffer: index,
            x: 0,
            y: 0,
            extent,
            clear: clear_values(),
            contents: SUBPASS_CONTENTS_INLINE,
        },
        Command::BindPipeline { bind_point: BIND_POINT_GRAPHICS },
        Command::BindVertexBuffer { first_binding: 0, offset: 0 },
        Command::BindIndexBuffer { offset: 0, index_type: INDEX_TYPE_UINT32 },
        Command::BindDescriptorSet { bind_point: BIND_POINT_GRAPHICS, first_set: 0, set: index },
    ]
}

/// The commands after the draw calls.
pub open spec fn stream_end() -> Seq<Command> {
    seq![Command::EndRenderPass, Command::EndCommandBuffer]
}

/// All commands of command buffer `index`.
pub open spec fn command_stream(
    index: u32,
    extent: Extent2D,
    renderables: Seq<Renderable>,
) -> Seq<Command> {
    stream_start(index, extent) + scene_draws(renderables) + stream_end()
}

/// Whether a command belongs to a draw call.
pub open spec fn is_draw(command: Command) -> bool {
    command is PushTransform || command is PushTextureIndex || command is DrawIndexed
}

/// Appends the commands of one draw call.
pub fn draw_indexed(
    commands: &mut Vec<Command>,
    index_count: usize,
    transform: Transform,
    first_index: u32,
    vertex_offset: i32,
    texture_index: u32,
)
    ensures
        final(commands)@ == old(commands)@ + draw_call(
            index_count,
            transform,
            first_index,
            vertex_offset,
            texture_index,
        ),
{
    commands.push(Command::PushTransform { range: transform_push_range(), transform });
    commands.push(Command::PushTextureIndex { range: texture_index_push_range(), texture_index });
    commands.push(
        Command::DrawIndexed {
            index_count: #[verifier::truncate] (index_count as u32),
            instance_count: 1,
            first_index,
            vertex_offset,
            first_instance: 0,
        },
    );
    assert(commands@ =~= old(commands)@ + draw_call(
        index_count,
        transform,
        first_index,
        vertex_offset,
        texture_index,
    ));
}

/// Records the commands that draw the scene to framebuffer `index`.
pub fn record_commands(index: u32, extent: Extent2D, renderables: &Vec<Renderable>) -> (commands:
    Vec<Command>)
    requires
        drawable(renderables@),
    ensures
        commands@ == command_stream(index, extent, renderables@),
{
    let mut commands: Vec<Command> = Vec::new();
    commands.push(Command::BeginCommandBuffer { usage: COMMAND_BUFFER_USAGE_SIMULTANEOUS_USE });
    commands.push(
        Command::BeginRenderPass {
            framebuffer: index,
            x: 0,
            y: 0,
            extent,
            clear: ClearValues {
                red: FLOAT_ZERO,
                green: FLOAT_ZERO,
                blue: FLOAT_ZERO,
                alpha: FLOAT_ONE,
                depth: FLOAT_ONE,
                stencil: 0,
            },
            contents: SUBPASS_CONTENTS_INLINE,
        },
    );
    commands.push(Command::BindPipeline { bind_point: BIND_POINT_GRAPHICS });
    commands.push(Command::BindVertexBuffer { first_binding: 0, offset: 0 });
    commands.push(Command::BindIndexBuffer { offset: 0, index_type: INDEX_TYPE_UINT32 });
    commands.push(
        Command::BindDescriptorSet { bind_point: BIND_POINT_GRAPHICS, first_set: 0, set: index },
    );
    assert(commands@ =~= stream_start(index, extent));
    let mut r: usize = 0;
    assert(renderables@.take(0) =~= Seq::<Renderable>::empty());
    assert(renderables@.take(renderables@.len() as int) =~= renderables@);
    while r < renderables.len()
        invariant
            r <= renderables@.len(),
            drawable(renderables@),
            commands@ == stream_start(index, extent) + scene_draws(renderables@.take(r as int)),
        decreases renderables@.len() - r,
    {
        let renderable = &renderables[r];
        let texture_index = match renderable.texture_index {
            Some(t) => t,
            None => 0,
        };
        let ghost before = commands@;
        let mut idx: usize = 0;
        while idx < renderable.meshes.len()
            invariant
                idx <= renderable.meshes@.len() <= renderable.instances@.len(),
                texture_index == texture_of(*renderable),
                commands@ == before + mesh_draws(*renderable, idx as nat),
            decreases renderable.meshes@.len() - idx,
        {
            let mesh = renderable.meshes[idx];
            draw_indexed(
                &mut commands,
                mesh.index_count,
                renderable.instances[idx],
                #[verifier::truncate] ((mesh.index_buffer_ptr.offset / INDEX_SIZE) as u32),
                #[verifier::truncate] ((mesh.vertex_buffer_ptr.offset / VERTEX_SIZE) as i32),
                texture_index,
            );
            assert(commands@ =~= before + mesh_draws(*renderable, (idx + 1) as nat));
            idx = idx + 1;
        }
        proof {
            let next = renderables@.take(r + 1);
            assert(next.drop_last() =~= renderables@.take(r as int));
            assert(next.last() == *renderable);
            assert(commands@ =~= stream_start(index, extent) + scene_draws(next));
        }
        r = r + 1;
    }
    commands.push(Command::EndRenderPass);
    commands.push(Command::EndCommandBuffer);
    assert(commands@ =~= command_stream(index, extent, renderables@));
    commands
}

/// Law: whatever is drawn is drawn inside the render pass, after the pipeline,
/// the vertex buffer, the index buffer and the descriptor set were bound; each
/// of those, and each start and end, occurs once and in its place.
pub proof fn law_draws_happen_in_a_bound_render_pass(
    index: u32,
    extent: Extent2D,
    renderables: Seq<Renderable>,
)
    ensures
        ({
            let stream = command_stream(index, extent, renderables);
            let end = stream.len() - 2;
            &&& stream.take(6) == stream_start(index, extent)
            &&& stream.skip(end) == stream_end()
            &&& forall|k: int| 6 <= k < end ==> is_draw(#[trigger] stream[k])
        }),
{
    let stream = command_stream(index, extent, renderables);
    let draws = scene_draws(renderables);
    lemma_scene_draws_only_draw(renderables);
    assert(stream.take(6) =~= stream_start(index, extent));
    assert(stream.skip(stream.len() - 2) =~= stream_end());
    assert forall|k: int| 6 <= k < stream.len() - 2 implies is_draw(#[trigger] stream[k]) by {
        assert(stream[k] == draws[k - 6]);
    }
}

/// The meshes of a renderable take three commands each, all of draw calls.
proof fn lemma_mesh_draws_only_draw(renderable: Renderable, n: nat)
    ensures
        mesh_draws(renderable, n).len() == 3 * n,
        forall|k: int|
            0 <= k < 3 * n ==> is_draw(#[trigger] mesh_draws(renderable, n)[k]),
    decreases n,
{
    if n > 0 {
        lemma_mesh_draws_only_draw(renderable, (n - 1) as nat);
    }
}

/// All commands of the scene belong to draw calls.
pub(crate) proof fn lemma_scene_draws_only_draw(renderables: Seq<Renderable>)
    ensures
        forall|k: int|
            0 <= k < scene_draws(renderables).len() ==> is_draw(
                #[trigger] scene_draws(renderables)[k],
            ),
    decreases renderables.len(),
{
    if renderables.len() > 0 {
        let front = scene_draws(renderables.drop_last());
        let back = mesh_draws(renderables.last(), renderables.last().meshes@.len());
        lemma_scene_draws_only_draw(renderables.drop_last());
        lemma_mesh_draws_only_draw(renderables.last(), renderables.last().meshes@.len());
        assert forall|k: int| 0 <= k < scene_draws(renderables).len() implies is_draw(
            #[trigger] scene_draws(renderables)[k],
        ) by {
            if k < front.len() {
                assert(scene_draws(renderables)[k] == front[k]);
            } else {
                assert(scene_draws(renderables)[k] == back[k - front.len()]);
            }
        }
    }
}

/// The number of meshes of the renderables.
pub open spec fn mesh_total(renderables: Seq<Renderable>) -> nat
    decreases renderables.len(),
{
    if renderables.len() == 0 {
        0
    } else {
        mesh_total(renderables.drop_last()) + renderables.last().meshes@.len()
    }
}

/// Law: mesh `idx` of renderable `r` is drawn by the three commands behind those
/// of all meshes before it, with its own geometry, transform and texture.
pub proof fn law_every_mesh_is_drawn_in_its_turn(renderables: Seq<Renderable>, r: int, idx: int)
    requires
        0 <= r < renderables.len(),
        0 <= idx < renderables[r].meshes@.len(),
    ensures
        scene_draws(renderables).len() == 3 * mesh_total(renderables),
        ({
            let at = 3 * (mesh_total(renderables.take(r)) + idx);
            &&& 0 <= at
            &&& at + 3 <= scene_draws(renderables).len()
            &&& scene_draws(renderables).subrange(at as int, at + 3) == mesh_draw(
                renderables[r],
                idx,
            )
        }),
    decreases renderables.len(),
{
    let front = renderables.drop_last();
    let last = renderables.last();
    let n = last.meshes@.len();
    lemma_scene_draws_length(renderables);
    lemma_scene_draws_length(front);
    lemma_mesh_draws_only_draw(last, n);
    if r < front.len() {
        law_every_mesh_is_drawn_in_its_turn(front, r, idx);
        assert(front.take(r) =~= renderables.take(r));
        let at = 3 * (mesh_total(renderables.take(r)) + idx);
        assert(scene_draws(renderables).subrange(at as int, at + 3) =~= scene_draws(
            front,
        ).subrange(at as int, at + 3));
    } else {
        assert(renderables.take(r) =~= front);
        lemma_mesh_draw_position(last, n, idx);
        let at = 3 * (mesh_total(front) + idx);
        assert(scene_draws(renderables).subrange(at as int, at + 3) =~= mesh_draws(
            last,
            n,
        ).subrange(3 * idx, 3 * idx + 3));
    }
}

/// Law: a mesh whose ranges start inside the buffers, at a whole index and at a
/// whole vertex, is drawn from exactly the start of those ranges, and with all
/// of its indices where they fit the index buffer.
pub proof fn law_draw_starts_at_the_uploaded_ranges(mesh: Mesh)
    requires
        mesh.index_buffer_ptr.offset < PAGE_SIZE,
        mesh.index_buffer_ptr.offset % INDEX_SIZE == 0,
        mesh.vertex_buffer_ptr.offset < PAGE_SIZE,
        mesh.vertex_buffer_ptr.offset % VERTEX_SIZE == 0,
    ensures
        first_index_of(mesh) * INDEX_SIZE == mesh.index_buffer_ptr.offset,
        vertex_offset_of(mesh) * VERTEX_SIZE == mesh.vertex_buffer_ptr.offset,
        mesh.index_buffer_ptr.offset + mesh.index_count * INDEX_SIZE <= PAGE_SIZE
            ==> mesh.index_count as u32 == mesh.index_count,
{
}

/// The scene takes three commands for each mesh.
proof fn lemma_scene_draws_length(renderables: Seq<Renderable>)
    ensures
        scene_draws(renderables).len() == 3 * mesh_total(renderables),
    decreases renderables.len(),
{
    if renderables.len() > 0 {
        lemma_scene_draws_length(renderables.drop_last());
        lemma_mesh_draws_only_draw(renderables.last(), renderables.last().meshes@.len());
    }
}

/// Mesh `idx` is drawn behind the meshes before it.
proof fn lemma_mesh_draw_position(renderable: Renderable, n: nat, idx: int)
    requires
        0 <= idx < n,
    ensures
        3 * idx + 3 <= mesh_draws(renderable, n).len(),
        mesh_draws(renderable, n).subrange(3 * idx, 3 * idx + 3) == mesh_draw(renderable, idx),
    decreases n,
{
    lemma_mesh_draws_only_draw(renderable, n);
    lemma_mesh_draws_only_draw(renderable, (n - 1) as nat);
    if idx < n - 1 {
        lemma_mesh_draw_position(renderable, (n - 1) as nat, idx);
        assert(mesh_draws(renderable, n).subrange(3 * idx, 3 * idx + 3) =~= mesh_draws(
            renderable,
            (n - 1) as nat,
        ).subrange(3 * idx, 3 * idx + 3));
    } else {
        assert(mesh_draws(renderable, n).subrange(3 * idx, 3 * idx + 3) =~= mesh_draw(
            renderable,
            idx,
        ));
    }
}

/// Law: a draw call is appended behind the commands before it, which stay: it pushes
/// the transform and the texture index, and draws once as many indices as asked for
/// from where it is told.
pub proof fn law_draw_call_is_appended(
    index_count: usize,
    transform: Transform,
    first_index: u32,
    vertex_offset: i32,
    texture_index: u32,
)
    ensures
        forall|commands: &mut Vec<Command>| #[trigger]
            call_ensures(
                draw_indexed,
                (commands, index_count, transform, first_index, vertex_offset, texture_index),
                (),
            ) ==> {
                let n = commands@.len() as int;
                &&& final(commands)@.take(n) == commands@
                &&& final(commands)@.len() == n + 3
                &&& final(commands)@[n] matches Command::PushTransform { transform: pushed, .. }
                    && pushed == transform
                &&& final(commands)@[n + 1] matches Command::PushTextureIndex {
                    texture_index: pushed,
                    ..
                } && pushed == texture_index
                &&& final(commands)@[n + 2] == (Command::DrawIndexed {
                    index_count: index_count as u32,
                    instance_count: 1,
                    first_index,
                    vertex_offset,
                    first_instance: 0,
                })
            },
{
    assert forall|commands: &mut Vec<Command>| #[trigger]
        call_ensures(
            draw_indexed,
            (commands, index_count, transform, first_index, vertex_offset, texture_index),
            (),
        ) implies final(commands)@.take(commands@.len() as int) == commands@ by {
        assert(final(commands)@.take(commands@.len() as int) =~= commands@);
    }
}

} // verus!
