//! Where uploaded geometry lies: as long as the allocators hand out ranges that
//! do not overlap, no upload of a mesh touches another.

use vstd::prelude::*;

use crate::descriptors::{UBO, PAGE_SIZE};
use crate::history::{fills, is_history, step, Event};
use crate::instance::{ClusterUpload, RenderInstance};
use crate::pipeline::VertexInput;
use crate::recording::mesh_total;
use crate::scene::{
    BuffPtr, GeometryBuffer, Mesh, Renderable, UploadRequest, INDEX_SIZE,
    SCALAR_SIZE, VERTEX_SIZE,
};
use crate::targets::{SwapchainDesc, SwapchainWrapper};

verus! {

/// A range of bytes of a geometry buffer.
pub ghost struct ByteRange {
    pub buffer: GeometryBuffer,
    pub offset: int,
    pub size: int,
}

/// Two ranges share no byte.
pub open spec fn apart(first: ByteRange, second: ByteRange) -> bool {
    ||| first.buffer != second.buffer
    ||| first.offset + first.size <= second.offset
    ||| second.offset + second.size <= first.offset
}

/// A range lies inside its buffer.
pub open spec fn inside(range: ByteRange) -> bool {
    0 <= range.offset && range.offset + range.size <= PAGE_SIZE
}

/// What an allocator promises of the ranges that it handed out: they lie inside
/// the buffer, and no two share a byte.
pub open spec fn are_allocated(ranges: Seq<ByteRange>) -> bool {
    &&& forall|i: int| 0 <= i < ranges.len() ==> inside(#[trigger] ranges[i])
    &&& forall|i: int, j: int|
        0 <= i < j < ranges.len() ==> apart(#[trigger] ranges[i], #[trigger] ranges[j])
}

/// The range that a request asked for, where it was placed.
pub open spec fn asked_for(request: UploadRequest, ptr: BuffPtr) -> ByteRange {
    ByteRange { buffer: request.buffer, offset: ptr.offset as int, size: request.reserve as int }
}

/// The bytes of the vertices of a mesh.
pub open spec fn vertex_bytes(mesh: Mesh) -> ByteRange {
    ByteRange {
        buffer: GeometryBuffer::Vertex,
        offset: mesh.vertex_buffer_ptr.offset as int,
        size: mesh.vertex_count * VERTEX_SIZE,
    }
}

/// The bytes of the indices of a mesh.
pub open spec fn index_bytes(mesh: Mesh) -> ByteRange {
    ByteRange {
        buffer: GeometryBuffer::Index,
        offset: mesh.index_buffer_ptr.offset as int,
        size: mesh.index_count * INDEX_SIZE,
    }
}

/// The bytes of the first `n` meshes: vertices, then indices of each.
pub open spec fn meshes_bytes(meshes: Seq<Mesh>, n: nat) -> Seq<ByteRange>
    decreases n,
{
    if n == 0 {
        Seq::empty()
    } else {
        meshes_bytes(meshes, (n - 1) as nat) + seq![
            vertex_bytes(meshes[n - 1]),
            index_bytes(meshes[n - 1]),
        ]
    }
}

/// The bytes of all meshes of the renderables, in order.
pub open spec fn scene_bytes(renderables: Seq<Renderable>) -> Seq<ByteRange>
    decreases renderables.len(),
{
    if renderables.len() == 0 {
        Seq::empty()
    } else {
        scene_bytes(renderables.drop_last()) + meshes_bytes(
            renderables.last().meshes@,
            renderables.last().meshes@.len(),
        )
    }
}

/// The ranges that the first `n` uploads of a cluster tree asked for.
pub open spec fn clusters_asked(
    uploads: Seq<ClusterUpload>,
    meshes: Seq<Mesh>,
    n: nat,
) -> Seq<ByteRange>
    decreases n,
{
    if n == 0 {
        Seq::empty()
    } else {
        clusters_asked(uploads, meshes, (n - 1) as nat) + seq![
            asked_for(uploads[n - 1].vertex, meshes[n - 1].vertex_buffer_ptr),
            asked_for(uploads[n - 1].index, meshes[n - 1].index_buffer_ptr),
        ]
    }
}

/// The ranges that a load asked the allocators for.
pub open spec fn load_asked<T: UBO + Copy>(now: RenderInstance<T>, event: Event<T>) -> Seq<
    ByteRange,
> {
    let meshes = now.renderables@.last().meshes@;
    match event {
        Event::FileLoad { upload } => seq![
            asked_for(upload.vertex, meshes[0].vertex_buffer_ptr),
            asked_for(upload.index, meshes[0].index_buffer_ptr),
        ],
        Event::ClusterLoad { uploads } => clusters_asked(uploads, meshes, uploads.len()),
        _ => Seq::empty(),
    }
}

/// The ranges that the loads among the first `n` events asked for.
pub open spec fn loads_asked_until<T: UBO + Copy>(
    states: Seq<RenderInstance<T>>,
    events: Seq<Event<T>>,
    n: int,
) -> Seq<ByteRange>
    decreases n,
{
    if n <= 0 {
        Seq::empty()
    } else {
        loads_asked_until(states, events, n - 1) + load_asked(states[n], events[n - 1])
    }
}

/// The ranges that the uploads of their own among the first `n` events asked
/// for.
pub open spec fn uploads_asked_until<T>(events: Seq<Event<T>>, n: int) -> Seq<ByteRange>
    decreases n,
{
    if n <= 0 {
        Seq::empty()
    } else {
        let before = uploads_asked_until(events, n - 1);
        match events[n - 1] {
            Event::Upload { request, ptr } => before.push(asked_for(request, ptr)),
            _ => before,
        }
    }
}

/// All ranges that the first `n` events asked for: those of loads, then those of
/// uploads of their own.
pub open spec fn asked_until<T: UBO + Copy>(
    states: Seq<RenderInstance<T>>,
    events: Seq<Event<T>>,
    n: int,
) -> Seq<ByteRange> {
    loads_asked_until(states, events, n) + uploads_asked_until(events, n)
}

/// No mesh is changed through the reference to its renderable.
pub open spec fn keeps_meshes<T: UBO + Copy>(
    states: Seq<RenderInstance<T>>,
    events: Seq<Event<T>>,
) -> bool {
    forall|k: int|
        0 <= k < events.len() && #[trigger] events[k] is Change ==> same_meshes(
            states[k].renderables@,
            states[k + 1].renderables@,
        )
}

/// Renderables with the same meshes.
pub open spec fn same_meshes(before: Seq<Renderable>, now: Seq<Renderable>) -> bool {
    &&& before.len() == now.len()
    &&& forall|r: int|
        0 <= r < now.len() ==> (#[trigger] now[r]).meshes@ == before[r].meshes@
}

/// The same meshes take the same bytes.
proof fn lemma_same_meshes(before: Seq<Renderable>, now: Seq<Renderable>)
    requires
        same_meshes(before, now),
    ensures
        scene_bytes(before) == scene_bytes(now),
    decreases now.len(),
{
    if now.len() > 0 {
        let front = now.drop_last();
        assert forall|r: int| 0 <= r < front.len() implies (#[trigger] front[r]).meshes@
            == before.drop_last()[r].meshes@ by {
            assert(front[r] == now[r]);
        }
        lemma_same_meshes(before.drop_last(), front);
        assert(now[now.len() - 1].meshes@ == before.last().meshes@);
    }
}

/// What a cluster tree asked for is what its meshes take.
proof fn lemma_clusters_asked(uploads: Seq<ClusterUpload>, meshes: Seq<Mesh>, n: nat)
    requires
        n <= uploads.len(),
        forall|k: int|
            0 <= k < uploads.len() ==> {
                &&& asked_for((#[trigger] uploads[k]).vertex, meshes[k].vertex_buffer_ptr)
                    == vertex_bytes(meshes[k])
                &&& asked_for(uploads[k].index, meshes[k].index_buffer_ptr) == index_bytes(
                    meshes[k],
                )
            },
    ensures
        clusters_asked(uploads, meshes, n) == meshes_bytes(meshes, n),
    decreases n,
{
    if n > 0 {
        lemma_clusters_asked(uploads, meshes, (n - 1) as nat);
        assert(asked_for(uploads[n - 1].vertex, meshes[n - 1].vertex_buffer_ptr) == vertex_bytes(
            meshes[n - 1],
        ));
    }
}

/// Law: through any history the bytes of the meshes are exactly the ranges that
/// their loads asked for.
pub proof fn law_meshes_take_what_was_asked_for<T: UBO + Copy>(
    states: Seq<RenderInstance<T>>,
    events: Seq<Event<T>>,
    setup: SwapchainDesc,
    swapchain: SwapchainWrapper,
    vertex_input: VertexInput,
    n: int,
)
    requires
        is_history(states, events),
        keeps_meshes(states, events),
        states[0].is_new(setup, swapchain, vertex_input),
        0 <= n < states.len(),
    ensures
        loads_asked_until(states, events, n) == scene_bytes(states[n].renderables@),
    decreases n,
{
    if n > 0 {
        law_meshes_take_what_was_asked_for(states, events, setup, swapchain, vertex_input, n - 1);
        let before = states[n - 1];
        let now = states[n];
        let event = events[n - 1];
        let meshes = now.renderables@.last().meshes@;
        assert(step(before, now, event));
        match event {
            Event::FileLoad { .. } => {
                reveal_with_fuel(meshes_bytes, 2);
                assert(load_asked(now, event) =~= meshes_bytes(meshes, 1));
            },
            Event::ClusterLoad { uploads } => {
                assert forall|k: int| 0 <= k < uploads.len() implies {
                    &&& asked_for((#[trigger] uploads[k]).vertex, meshes[k].vertex_buffer_ptr)
                        == vertex_bytes(meshes[k])
                    &&& asked_for(uploads[k].index, meshes[k].index_buffer_ptr) == index_bytes(
                        meshes[k],
                    )
                } by {
                    assert(fills(uploads[k]));
                }
                lemma_clusters_asked(uploads, meshes, uploads.len());
            },
            Event::Change { .. } => {
                lemma_same_meshes(before.renderables@, now.renderables@);
                assert(loads_asked_until(states, events, n) =~= loads_asked_until(
                    states,
                    events,
                    n - 1,
                ));
            },
            _ => {
                assert(loads_asked_until(states, events, n) =~= loads_asked_until(
                    states,
                    events,
                    n - 1,
                ));
            },
        }
    }
}

/// The bytes of the meshes stand in order.
proof fn lemma_meshes_bytes(meshes: Seq<Mesh>, n: nat)
    ensures
        meshes_bytes(meshes, n).len() == 2 * n,
        forall|i: int|
            0 <= i < n ==> {
                &&& meshes_bytes(meshes, n)[2 * i] == vertex_bytes(#[trigger] meshes[i])
                &&& meshes_bytes(meshes, n)[2 * i + 1] == index_bytes(meshes[i])
            },
    decreases n,
{
    if n > 0 {
        lemma_meshes_bytes(meshes, (n - 1) as nat);
        let front = meshes_bytes(meshes, (n - 1) as nat);
        let all = meshes_bytes(meshes, n);
        assert forall|i: int| 0 <= i < n implies {
            &&& all[2 * i] == vertex_bytes(#[trigger] meshes[i])
            &&& all[2 * i + 1] == index_bytes(meshes[i])
        } by {
            if i < n - 1 {
                assert(all[2 * i] == front[2 * i]);
                assert(all[2 * i + 1] == front[2 * i + 1]);
            }
        }
    }
}

/// Where the bytes of mesh `i` of renderable `r` stand.
proof fn lemma_scene_bytes_position(renderables: Seq<Renderable>, r: int, i: int)
    requires
        0 <= r < renderables.len(),
        0 <= i < renderables[r].meshes@.len(),
    ensures
        ({
            let at = 2 * (mesh_total(renderables.take(r)) + i);
            &&& at + 1 < scene_bytes(renderables).len()
            &&& scene_bytes(renderables)[at] == vertex_bytes(renderables[r].meshes@[i])
            &&& scene_bytes(renderables)[at + 1] == index_bytes(renderables[r].meshes@[i])
        }),
    decreases renderables.len(),
{
    let front = renderables.drop_last();
    let last = renderables.last();
    lemma_scene_bytes_length(front);
    lemma_meshes_bytes(last.meshes@, last.meshes@.len());
    if r < front.len() {
        lemma_scene_bytes_position(front, r, i);
        assert(front.take(r) =~= renderables.take(r));
        assert(front[r] == renderables[r]);
    } else {
        assert(renderables.take(r) =~= front);
        assert(last.meshes@[i] == renderables[r].meshes@[i]);
    }
}

/// Each mesh takes two ranges.
proof fn lemma_scene_bytes_length(renderables: Seq<Renderable>)
    ensures
        scene_bytes(renderables).len() == 2 * mesh_total(renderables),
    decreases renderables.len(),
{
    if renderables.len() > 0 {
        lemma_scene_bytes_length(renderables.drop_last());
        lemma_meshes_bytes(renderables.last().meshes@, renderables.last().meshes@.len());
    }
}

/// Meshes of earlier renderables are counted before those of later ones.
proof fn lemma_mesh_total_grows(renderables: Seq<Renderable>, r: int, s: int)
    requires
        0 <= r < s <= renderables.len(),
    ensures
        mesh_total(renderables.take(r)) + renderables[r].meshes@.len() <= mesh_total(
            renderables.take(s),
        ),
    decreases s - r,
{
    let up = renderables.take(s);
    assert(up.drop_last() =~= renderables.take(s - 1));
    assert(up.last() == renderables[s - 1]);
    if r < s - 1 {
        lemma_mesh_total_grows(renderables, r, s - 1);
    }
}

/// Law: where the allocators hand out ranges of the sizes asked for that lie
/// inside the buffers and share no byte, the vertices of any two meshes of the
/// scene share no byte, nor do their indices, and all lie inside the buffers.
/// This holds whatever else was uploaded; an upload of vertices on its own writes
/// more than it asks for, and nothing is said of its bytes.
pub proof fn law_meshes_do_not_overlap<T: UBO + Copy>(
    states: Seq<RenderInstance<T>>,
    events: Seq<Event<T>>,
    setup: SwapchainDesc,
    swapchain: SwapchainWrapper,
    vertex_input: VertexInput,
    n: int,
    r: int,
    i: int,
    s: int,
    j: int,
)
    requires
        is_history(states, events),
        keeps_meshes(states, events),
        states[0].is_new(setup, swapchain, vertex_input),
        0 <= n < states.len(),
        are_allocated(asked_until(states, events, n)),
        0 <= r < states[n].renderables@.len(),
        0 <= i < states[n].renderables@[r].meshes@.len(),
        0 <= s < states[n].renderables@.len(),
        0 <= j < states[n].renderables@[s].meshes@.len(),
        r != s || i != j,
    ensures
        ({
            let first = states[n].renderables@[r].meshes@[i];
            let second = states[n].renderables@[s].meshes@[j];
            &&& inside(vertex_bytes(first))
            &&& inside(index_bytes(first))
            &&& apart(vertex_bytes(first), vertex_bytes(second))
            &&& apart(index_bytes(first), index_bytes(second))
        }),
{
    let renderables = states[n].renderables@;
    law_meshes_take_what_was_asked_for(states, events, setup, swapchain, vertex_input, n);
    lemma_scene_bytes_position(renderables, r, i);
    lemma_scene_bytes_position(renderables, s, j);
    let meshes = scene_bytes(renderables);
    let all = asked_until(states, events, n);
    assert forall|k: int| 0 <= k < meshes.len() implies all[k] == #[trigger] meshes[k] by {}
    let a = 2 * (mesh_total(renderables.take(r)) + i);
    let b = 2 * (mesh_total(renderables.take(s)) + j);
    if r < s {
        lemma_mesh_total_grows(renderables, r, s);
    } else if s < r {
        lemma_mesh_total_grows(renderables, s, r);
    }
    assert(a != b);
    assert(inside(all[a]) && inside(all[a + 1]));
    if a < b {
        assert(apart(all[a], all[b]));
        assert(apart(all[a + 1], all[b + 1]));
    } else {
        assert(apart(all[b], all[a]));
        assert(apart(all[b + 1], all[a + 1]));
    }
}

/// The bytes of uploaded indices.
pub open spec fn uploaded_index_bytes(ptr: BuffPtr, count: nat) -> ByteRange {
    ByteRange {
        buffer: GeometryBuffer::Index,
        offset: ptr.offset as int,
        size: (count * INDEX_SIZE) as int,
    }
}

/// The request of an upload of `count` indices.
pub open spec fn is_index_request(request: UploadRequest, count: nat) -> bool {
    &&& request.buffer == GeometryBuffer::Index
    &&& request.reserve == count * SCALAR_SIZE
}

/// Where the range of an upload stands among those of the uploads.
proof fn lemma_upload_position<T>(events: Seq<Event<T>>, k: int, n: int)
    requires
        0 <= k < n <= events.len(),
        events[k] is Upload,
    ensures
        ({
            let at = uploads_asked_until(events, k).len() as int;
            &&& at < uploads_asked_until(events, n).len()
            &&& uploads_asked_until(events, n)[at] == asked_for(
                events[k]->request,
                events[k]->ptr,
            )
        }),
    decreases n - k,
{
    if k < n - 1 {
        lemma_upload_position(events, k, n - 1);
    }
}

/// Law: where the allocators hand out ranges of the sizes asked for that lie
/// inside the buffers and share no byte, indices uploaded on their own lie inside
/// the index buffer and share no byte with the indices of any mesh.
pub proof fn law_index_uploads_touch_no_mesh<T: UBO + Copy>(
    states: Seq<RenderInstance<T>>,
    events: Seq<Event<T>>,
    setup: SwapchainDesc,
    swapchain: SwapchainWrapper,
    vertex_input: VertexInput,
    n: int,
    r: int,
    i: int,
    k: int,
    count: nat,
)
    requires
        is_history(states, events),
        keeps_meshes(states, events),
        states[0].is_new(setup, swapchain, vertex_input),
        0 <= n < states.len(),
        are_allocated(asked_until(states, events, n)),
        0 <= r < states[n].renderables@.len(),
        0 <= i < states[n].renderables@[r].meshes@.len(),
        0 <= k < n,
        events[k] is Upload,
        is_index_request(events[k]->request, count),
    ensures
        inside(uploaded_index_bytes(events[k]->ptr, count)),
        apart(
            index_bytes(states[n].renderables@[r].meshes@[i]),
            uploaded_index_bytes(events[k]->ptr, count),
        ),
{
    let renderables = states[n].renderables@;
    law_meshes_take_what_was_asked_for(states, events, setup, swapchain, vertex_input, n);
    lemma_scene_bytes_position(renderables, r, i);
    lemma_upload_position(events, k, n);
    let meshes = scene_bytes(renderables);
    let all = asked_until(states, events, n);
    let a = 2 * (mesh_total(renderables.take(r)) + i) + 1;
    let b = (meshes.len() + uploads_asked_until(events, k).len()) as int;
    assert(all[a] == meshes[a]);
    assert(all[b] == uploads_asked_until(events, n)[b - meshes.len()]);
    assert(inside(all[b]));
    assert(apart(all[a], all[b]));
}

/// Law: where the allocators hand out ranges of the sizes asked for that lie
/// inside the buffers and share no byte, the indices of any two uploads of their
/// own in a history share no byte.
pub proof fn law_index_uploads_stay_apart<T: UBO + Copy>(
    states: Seq<RenderInstance<T>>,
    events: Seq<Event<T>>,
    n: int,
    k: int,
    first_count: nat,
    l: int,
    second_count: nat,
)
    requires
        is_history(states, events),
        0 <= n < states.len(),
        are_allocated(asked_until(states, events, n)),
        0 <= k < l < n,
        events[k] is Upload,
        is_index_request(events[k]->request, first_count),
        events[l] is Upload,
        is_index_request(events[l]->request, second_count),
    ensures
        inside(uploaded_index_bytes(events[k]->ptr, first_count)),
        inside(uploaded_index_bytes(events[l]->ptr, second_count)),
        apart(
            uploaded_index_bytes(events[k]->ptr, first_count),
            uploaded_index_bytes(events[l]->ptr, second_count),
        ),
{
    lemma_upload_position(events, k, n);
    lemma_upload_position(events, l, n);
    lemma_upload_position(events, k, l);
    let loads = loads_asked_until(states, events, n);
    let all = asked_until(states, events, n);
    let a = (loads.len() + uploads_asked_until(events, k).len()) as int;
    let b = (loads.len() + uploads_asked_until(events, l).len()) as int;
    assert(all[a] == uploads_asked_until(events, n)[a - loads.len()]);
    assert(all[b] == uploads_asked_until(events, n)[b - loads.len()]);
    assert(inside(all[a]) && inside(all[b]));
    assert(apart(all[a], all[b]));
}

/// Bytes written to a place of a buffer.
pub ghost struct Write {
    pub at: int,
    pub data: Seq<u8>,
}

/// The contents of a buffer after a write.
pub open spec fn written(contents: Seq<u8>, write: Write) -> Seq<u8> {
    Seq::new(
        contents.len(),
        |i: int|
            if write.at <= i < write.at + write.data.len() {
                write.data[i - write.at]
            } else {
                contents[i]
            },
    )
}

/// The contents of a buffer after writes.
pub open spec fn written_all(contents: Seq<u8>, writes: Seq<Write>) -> Seq<u8>
    decreases writes.len(),
{
    if writes.len() == 0 {
        contents
    } else {
        written(written_all(contents, writes.drop_last()), writes.last())
    }
}

/// The range of a write to a buffer.
pub open spec fn write_range(buffer: GeometryBuffer, write: Write) -> ByteRange {
    ByteRange { buffer, offset: write.at, size: write.data.len() as int }
}

/// Law: where the writes to a buffer go to ranges that lie inside it and share
/// no byte, a write leaves what was written before unchanged: in the end every
/// range holds what was written to it.
pub proof fn law_geometry_stays_as_written(
    buffer: GeometryBuffer,
    contents: Seq<u8>,
    writes: Seq<Write>,
)
    requires
        contents.len() == PAGE_SIZE,
        are_allocated(writes.map_values(|write: Write| write_range(buffer, write))),
    ensures
        written_all(contents, writes).len() == PAGE_SIZE,
        forall|k: int|
            0 <= k < writes.len() ==> written_all(contents, writes).subrange(
                (#[trigger] writes[k]).at,
                writes[k].at + writes[k].data.len(),
            ) == writes[k].data,
    decreases writes.len(),
{
    if writes.len() > 0 {
        let front = writes.drop_last();
        let last = writes.last();
        let ranges = writes.map_values(|write: Write| write_range(buffer, write));
        let front_ranges = front.map_values(|write: Write| write_range(buffer, write));
        assert(front_ranges =~= ranges.drop_last());
        assert forall|i: int| 0 <= i < front_ranges.len() implies inside(
            #[trigger] front_ranges[i],
        ) by {
            assert(inside(ranges[i]));
        }
        assert forall|i: int, j: int| 0 <= i < j < front_ranges.len() implies apart(
            #[trigger] front_ranges[i],
            #[trigger] front_ranges[j],
        ) by {
            assert(apart(ranges[i], ranges[j]));
        }
        law_geometry_stays_as_written(buffer, contents, front);
        let before = written_all(contents, front);
        let now = written_all(contents, writes);
        let end = writes.len() - 1;
        assert(inside(ranges[end]));
        assert forall|k: int| 0 <= k < writes.len() implies now.subrange(
            (#[trigger] writes[k]).at,
            writes[k].at + writes[k].data.len(),
        ) == writes[k].data by {
            let at = writes[k].at;
            let to = at + writes[k].data.len();
            assert(inside(ranges[k]));
            if k < end {
                assert(apart(ranges[k], ranges[end]));
                assert(front[k] == writes[k]);
                assert(before.subrange(at, to) == writes[k].data);
                assert(now.subrange(at, to) =~= before.subrange(at, to));
            } else {
                assert(now.subrange(at, to) =~= writes[k].data);
            }
        }
    }
}

} // verus!
