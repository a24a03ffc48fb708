//! What holds of a renderer after any history of calls.

use vstd::prelude::*;

use crate::descriptors::UBO;
use crate::frame::{acquired_outcome, draw_actions, start_actions, FrameAction};
use crate::instance::{
    are_cluster_uploads, cluster_load_finished, cluster_mesh, file_load_finished,
    file_load_started, is_added, is_cluster_upload, is_model_upload, ClusterLoad, ClusterPlaces, ClusterUpload, FileLoad, ModelUpload,
    RenderInstance,
};
use crate::pipeline::VertexInput;
use crate::scene::{
    BuffPtr, ClusterTree, GeometryBuffer, Mesh, Texture, UploadRequest, INDEX_SIZE, VERTEX_SIZE,
};
use crate::targets::{SwapchainDesc, SwapchainWrapper};
use crate::vulkan::Extent2D;

verus! {

/// What happened to a renderer.
pub ghost enum Event<T> {
    /// A model file was loaded, with or without a texture.
    FileLoad { upload: ModelUpload },
    /// A cluster file was loaded.
    ClusterLoad { uploads: Seq<ClusterUpload> },
    /// A cluster file was refused for a color that is not in the list.
    ClusterRefused,
    /// Vertices or indices were uploaded on their own.
    Upload { request: UploadRequest, ptr: BuffPtr },
    /// The renderable of that index was changed through its reference.
    Change { index: usize },
    /// The uniform data was set.
    Update { ubo: T },
    /// A frame was started.
    Frame,
    /// The swapchain was rebuilt with these dimensions.
    Rebuild { dimensions: Extent2D, swapchain: SwapchainWrapper },
}

/// Only the allocators of the geometry changed.
pub open spec fn only_allocated<T: UBO + Copy>(
    before: RenderInstance<T>,
    now: RenderInstance<T>,
) -> bool {
    now == (RenderInstance {
        vertex_alloc: now.vertex_alloc,
        index_alloc: now.index_alloc,
        ..before
    })
}

/// A mesh holds what an upload of so many vertices and indices placed.
pub open spec fn is_mesh_of(mesh: Mesh, vertices: nat, indices: nat) -> bool {
    mesh.vertex_count == vertices && mesh.index_count == indices
}

/// An upload of a cluster fills what it reserves.
pub open spec fn fills(upload: ClusterUpload) -> bool {
    &&& upload.vertex.buffer == GeometryBuffer::Vertex
    &&& upload.vertex.reserve == upload.vertices@.len() * VERTEX_SIZE
    &&& upload.index.buffer == GeometryBuffer::Index
    &&& upload.index.reserve == upload.index_count * INDEX_SIZE
}

/// One event takes a renderer from `before` to `now`.
pub open spec fn step<T: UBO + Copy>(
    before: RenderInstance<T>,
    now: RenderInstance<T>,
    event: Event<T>,
) -> bool {
    let added = now.renderables@.last();
    match event {
        Event::FileLoad { upload } => {
            &&& is_added(before.renderables@, now.renderables@)
            &&& match added.texture_index {
                Some(t) => {
                    &&& t == before.descriptor_image_count
                    &&& t < u32::MAX
                    &&& added.texture == Some(Texture(t))
                    &&& now.descriptor_image_count == t + 1
                },
                None => {
                    &&& added.texture is None
                    &&& now.descriptor_image_count == before.descriptor_image_count
                },
            }
            &&& is_model_upload(upload, upload.vertex_count as nat, upload.index_count as nat)
            &&& added.meshes@.len() == 1
            &&& is_mesh_of(
                added.meshes@[0],
                upload.vertex_count as nat,
                upload.index_count as nat,
            )
            &&& now == (RenderInstance {
                renderables: now.renderables,
                descriptor_image_count: now.descriptor_image_count,
                vertex_alloc: now.vertex_alloc,
                index_alloc: now.index_alloc,
                ..before
            })
        },
        Event::ClusterLoad { uploads } => {
            &&& is_added(before.renderables@, now.renderables@)
            &&& added.texture_index is None
            &&& added.texture is None
            &&& added.meshes@.len() == uploads.len()
            &&& forall|k: int|
                0 <= k < uploads.len() ==> {
                    &&& fills(#[trigger] uploads[k])
                    &&& is_mesh_of(
                        added.meshes@[k],
                        uploads[k].vertices@.len(),
                        uploads[k].index_count as nat,
                    )
                }
            &&& now == (RenderInstance {
                renderables: now.renderables,
                rng: now.rng,
                vertex_alloc: now.vertex_alloc,
                index_alloc: now.index_alloc,
                ..before
            })
        },
        Event::ClusterRefused => now == (RenderInstance { rng: now.rng, ..before }),
        Event::Upload { request, ptr } => only_allocated(before, now),
        Event::Change { index } => {
            &&& index < before.renderables@.len()
            &&& now.renderables@ == before.renderables@.update(
                index as int,
                now.renderables@[index as int],
            )
            &&& now == (RenderInstance { renderables: now.renderables, ..before })
        },
        Event::Update { ubo } => now == (RenderInstance { ubo_data: Some(ubo), ..before }),
        Event::Frame => now == (RenderInstance {
            in_flight_frames: before.in_flight_frames.advanced(),
            ..before
        }),
        Event::Rebuild { dimensions, swapchain } => {
            &&& swapchain.images <= before.descriptor_sets
            &&& now == (RenderInstance {
                swapchain,
                framebuffers: swapchain.images,
                command_buffers: swapchain.images,
                ..before
            })
        },
    }
}

/// A history: the states of a renderer, with an event between each and the next.
pub open spec fn is_history<T: UBO + Copy>(
    states: Seq<RenderInstance<T>>,
    events: Seq<Event<T>>,
) -> bool {
    &&& states.len() == events.len() + 1
    &&& forall|k: int|
        0 <= k < events.len() ==> step(states[k], states[k + 1], #[trigger] events[k])
}

/// Law: the calls that load a model file, with the allocations between them,
/// are one event.
pub proof fn law_file_load_is_an_event<T: UBO + Copy>(
    before: RenderInstance<T>,
    started: RenderInstance<T>,
    allocated: RenderInstance<T>,
    now: RenderInstance<T>,
    model_path: String,
    texture_path: Option<String>,
    load: FileLoad,
    upload: ModelUpload,
    vertex_buffer_ptr: BuffPtr,
    index_buffer_ptr: BuffPtr,
)
    requires
        texture_path is Some ==> before.descriptor_image_count < u32::MAX,
        file_load_started(before, started, model_path, texture_path, load),
        is_model_upload(upload, upload.vertex_count as nat, upload.index_count as nat),
        only_allocated(started, allocated),
        file_load_finished(allocated, now, load, upload, vertex_buffer_ptr, index_buffer_ptr),
    ensures
        step(before, now, Event::FileLoad { upload }),
{
}

/// Law: the calls that load a cluster file, with the allocations between them,
/// are one event.
pub proof fn law_cluster_load_is_an_event<T: UBO + Copy>(
    before: RenderInstance<T>,
    drawn: RenderInstance<T>,
    allocated: RenderInstance<T>,
    now: RenderInstance<T>,
    tree: ClusterTree,
    colors: Seq<usize>,
    load: ClusterLoad,
    places: Seq<ClusterPlaces>,
)
    requires
        drawn == (RenderInstance { rng: drawn.rng, ..before }),
        are_cluster_uploads(load.uploads@, tree, colors),
        places.len() == load.uploads@.len(),
        only_allocated(drawn, allocated),
        cluster_load_finished(allocated, now, load, places),
    ensures
        step(before, now, Event::ClusterLoad { uploads: load.uploads@ }),
{
    let uploads = load.uploads@;
    let added = now.renderables@.last();
    assert forall|k: int| 0 <= k < uploads.len() implies {
        &&& fills(#[trigger] uploads[k])
        &&& is_mesh_of(
            added.meshes@[k],
            uploads[k].vertices@.len(),
            uploads[k].index_count as nat,
        )
    } by {
        assert(is_cluster_upload(uploads[k], tree, tree.leaves()[k], colors[k] as int));
        assert(added.meshes@[k] == cluster_mesh(uploads[k], places[k]));
    }
}

/// Law: after any history a well-formed renderer is well-formed.
pub proof fn law_every_state_is_well_formed<T: UBO + Copy>(
    states: Seq<RenderInstance<T>>,
    events: Seq<Event<T>>,
    n: int,
)
    requires
        is_history(states, events),
        states[0].wf(),
        0 <= n < states.len(),
    ensures
        states[n].wf(),
    decreases n,
{
    if n > 0 {
        law_every_state_is_well_formed(states, events, n - 1);
        assert(step(states[n - 1], states[n], events[n - 1]));
    }
}

/// Law: a renderable keeps its index, and what it is, through any history in
/// which it is not changed itself.
pub proof fn law_renderables_keep_their_index<T: UBO + Copy>(
    states: Seq<RenderInstance<T>>,
    events: Seq<Event<T>>,
    from: int,
    to: int,
    index: usize,
)
    requires
        is_history(states, events),
        0 <= from <= to < states.len(),
        index < states[from].renderables@.len(),
        forall|k: int| from <= k < to ==> #[trigger] events[k] != (Event::<T>::Change { index }),
    ensures
        index < states[to].renderables@.len(),
        states[to].renderables@[index as int] == states[from].renderables@[index as int],
    decreases to - from,
{
    if from < to {
        law_renderables_keep_their_index(states, events, from, to - 1, index);
        let before = states[to - 1];
        let now = states[to];
        assert(step(before, now, events[to - 1]));
        match events[to - 1] {
            Event::FileLoad { .. } | Event::ClusterLoad { .. } => {
                assert(now.renderables@.drop_last()[index as int] == before.renderables@[
                index as int]);
            },
            _ => {},
        }
    }
}

/// Law: what a load adds is found under the index behind all that were there.
pub proof fn law_loads_add_behind<T: UBO + Copy>(
    before: RenderInstance<T>,
    now: RenderInstance<T>,
    event: Event<T>,
)
    requires
        step(before, now, event),
        event is FileLoad || event is ClusterLoad,
    ensures
        now.renderables@.len() == before.renderables@.len() + 1,
        forall|r: int|
            0 <= r < before.renderables@.len() ==> #[trigger] now.renderables@[r]
                == before.renderables@[r],
{
    assert forall|r: int| 0 <= r < before.renderables@.len() implies #[trigger] now.renderables@[r]
        == before.renderables@[r] by {
        assert(now.renderables@.drop_last()[r] == before.renderables@[r]);
    }
}

/// Law: without a rebuild there is no command buffer, so that no acquired image
/// can be drawn: nothing is submitted or presented.
pub proof fn law_nothing_is_drawn_before_the_first_rebuild<T: UBO + Copy>(
    states: Seq<RenderInstance<T>>,
    events: Seq<Event<T>>,
    setup: SwapchainDesc,
    swapchain: SwapchainWrapper,
    vertex_input: VertexInput,
    n: int,
    image_index: u32,
    suboptimal: bool,
)
    requires
        is_history(states, events),
        states[0].is_new(setup, swapchain, vertex_input),
        0 <= n < states.len(),
        forall|k: int| 0 <= k < n ==> !(#[trigger] events[k] is Rebuild),
    ensures
        states[n].command_buffers == 0,
        acquired_outcome(
            Ok((image_index, suboptimal)),
            states[n].ubo_data is Some,
            states[n].uniform_buffers,
            states[n].command_buffers,
        ) is Err,
    decreases n,
{
    if n > 0 {
        law_nothing_is_drawn_before_the_first_rebuild(
            states,
            events,
            setup,
            swapchain,
            vertex_input,
            n - 1,
            image_index,
            suboptimal,
        );
        assert(step(states[n - 1], states[n], events[n - 1]));
    }
}

/// Uniform data once set stays until it is set again.
proof fn lemma_uniform_data_stays<T: UBO + Copy>(
    states: Seq<RenderInstance<T>>,
    events: Seq<Event<T>>,
    from: int,
    to: int,
)
    requires
        is_history(states, events),
        0 <= from <= to < states.len(),
        forall|k: int| from <= k < to ==> !(#[trigger] events[k] is Update),
    ensures
        states[to].ubo_data == states[from].ubo_data,
    decreases to - from,
{
    if from < to {
        lemma_uniform_data_stays(states, events, from, to - 1);
        assert(step(states[to - 1], states[to], events[to - 1]));
    }
}

/// What the mapped uniform buffers hold after the requests of a frame, where
/// copies are made of `data`.
pub open spec fn slots_after<T>(
    slots: Seq<Option<T>>,
    actions: Seq<FrameAction>,
    data: Option<T>,
) -> Seq<Option<T>>
    decreases actions.len(),
{
    if actions.len() == 0 {
        slots
    } else {
        let before = slots_after(slots, actions.drop_last(), data);
        match actions.last() {
            FrameAction::CopyUniform { mapping } => before.update(mapping as int, data),
            _ => before,
        }
    }
}

/// A frame copies to the slot of its image, or to none.
proof fn lemma_slots_of_a_frame<T>(
    slots: Seq<Option<T>>,
    data: Option<T>,
    sync: u32,
    image_index: u32,
)
    requires
        image_index < slots.len(),
    ensures
        slots_after(
            slots,
            start_actions(sync) + draw_actions(sync, image_index, data is Some),
            data,
        ) == (if data is Some {
            slots.update(image_index as int, data)
        } else {
            slots
        }),
{
    let all = start_actions(sync) + draw_actions(sync, image_index, data is Some);
    reveal_with_fuel(slots_after, 7);
    assert(all.len() == (if data is Some {
        6int
    } else {
        5int
    }));
    if data is Some {
        assert(all[3] == FrameAction::CopyUniform { mapping: image_index });
    }
}

/// Law: uniform data set once is copied, in every later frame until it is set
/// again, to the slot of the acquired image and to no other.
pub proof fn law_uniform_data_reaches_the_acquired_image<T: UBO + Copy>(
    states: Seq<RenderInstance<T>>,
    events: Seq<Event<T>>,
    at: int,
    n: int,
    ubo: T,
    slots: Seq<Option<T>>,
    sync: u32,
    image_index: u32,
)
    requires
        is_history(states, events),
        0 <= at < n < states.len(),
        events[at] == (Event::Update { ubo }),
        forall|k: int| at < k < n ==> !(#[trigger] events[k] is Update),
        image_index < slots.len(),
    ensures
        states[n].ubo_data == Some(ubo),
        slots_after(
            slots,
            start_actions(sync) + draw_actions(sync, image_index, states[n].ubo_data is Some),
            states[n].ubo_data,
        ) == slots.update(image_index as int, Some(ubo)),
{
    assert(step(states[at], states[at + 1], events[at]));
    lemma_uniform_data_stays(states, events, at + 1, n);
    lemma_slots_of_a_frame(slots, states[n].ubo_data, sync, image_index);
}

/// Law: while uniform data was never set, no slot is written.
pub proof fn law_no_slot_is_written_without_uniform_data<T: UBO + Copy>(
    states: Seq<RenderInstance<T>>,
    events: Seq<Event<T>>,
    setup: SwapchainDesc,
    swapchain: SwapchainWrapper,
    vertex_input: VertexInput,
    n: int,
    slots: Seq<Option<T>>,
    sync: u32,
    image_index: u32,
)
    requires
        is_history(states, events),
        states[0].is_new(setup, swapchain, vertex_input),
        0 <= n < states.len(),
        forall|k: int| 0 <= k < n ==> !(#[trigger] events[k] is Update),
        image_index < slots.len(),
    ensures
        states[n].ubo_data is None,
        slots_after(
            slots,
            start_actions(sync) + draw_actions(sync, image_index, states[n].ubo_data is Some),
            states[n].ubo_data,
        ) == slots,
{
    lemma_uniform_data_stays(states, events, 0, n);
    lemma_slots_of_a_frame(slots, states[n].ubo_data, sync, image_index);
}

} // verus!
