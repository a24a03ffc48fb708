//! The whole life of a renderer: its textures, the objects on the device and the
//! command buffers, through any history.

use vstd::prelude::*;

use crate::actions::{run, GpuAction, Resource};
use crate::descriptors::{DescriptorSetLayoutBinding, UBO};
use crate::history::{is_history, law_every_state_is_well_formed, step, Event};
use crate::instance::RenderInstance;
use crate::lifecycle::{
    law_create_brings_everything_up, law_new_texture_is_owned_by_its_renderable,
    law_rebuild_keeps_the_renderer_whole, law_teardown_leaves_nothing_behind, lemma_run_concat,
    lemma_run_nothing, texture_indices, texture_of_index, textures_in_order,
};
use crate::pipeline::VertexInput;
use crate::plans::{
    creation_actions, recorded, recordings, replace_swapchain_actions, restore_actions,
    scene_textures, teardown_actions, texture_actions,
};
use crate::recording::{command_stream, Command};
use crate::scene::Renderable;
use crate::targets::{SwapchainDesc, SwapchainWrapper};
use crate::vulkan::{Extent2D, COMMAND_POOL_CREATE_NONE};

verus! {

/// Renderables with the same textures.
pub open spec fn same_textures(before: Seq<Renderable>, now: Seq<Renderable>) -> bool {
    &&& before.len() == now.len()
    &&& forall|r: int|
        0 <= r < now.len() ==> {
            &&& (#[trigger] now[r]).texture == before[r].texture
            &&& now[r].texture_index == before[r].texture_index
        }
}

/// No texture is changed through the reference to a renderable.
pub open spec fn keeps_textures<T: UBO + Copy>(
    states: Seq<RenderInstance<T>>,
    events: Seq<Event<T>>,
) -> bool {
    forall|k: int|
        0 <= k < events.len() && #[trigger] events[k] is Change ==> same_textures(
            states[k].renderables@,
            states[k + 1].renderables@,
        )
}

/// The same textures are listed the same.
proof fn lemma_same_textures(before: Seq<Renderable>, now: Seq<Renderable>)
    requires
        same_textures(before, now),
    ensures
        scene_textures(before) == scene_textures(now),
        texture_indices(before) == texture_indices(now),
    decreases now.len(),
{
    if now.len() > 0 {
        let front = now.drop_last();
        assert forall|r: int| 0 <= r < front.len() implies {
            &&& (#[trigger] front[r]).texture == before.drop_last()[r].texture
            &&& front[r].texture_index == before.drop_last()[r].texture_index
        } by {
            assert(front[r] == now[r]);
        }
        lemma_same_textures(before.drop_last(), front);
        assert(now[now.len() - 1].texture == before.last().texture);
    }
}

/// One more event keeps the textures in order.
proof fn lemma_step_keeps_textures_in_order<T: UBO + Copy>(
    before: RenderInstance<T>,
    now: RenderInstance<T>,
    event: Event<T>,
)
    requires
        step(before, now, event),
        before.wf(),
        textures_in_order(before),
        event is Change ==> same_textures(before.renderables@, now.renderables@),
    ensures
        textures_in_order(now),
{
    match event {
        Event::FileLoad { .. } | Event::ClusterLoad { .. } => {
            let added = now.renderables@.last();
            assert(now.renderables@ =~= before.renderables@.push(added));
            if added.texture_index is Some {
                law_new_texture_is_owned_by_its_renderable(before, added, now);
            } else {
                assert(now.renderables@.drop_last() =~= before.renderables@);
                assert(texture_indices(now.renderables@) == texture_indices(before.renderables@));
                assert forall|r: int| 0 <= r < now.renderables@.len() implies (
                #[trigger] now.renderables@[r]).texture == texture_of_index(
                    now.renderables@[r].texture_index,
                ) by {
                    if r < before.renderables@.len() {
                        assert(now.renderables@[r] == before.renderables@[r]);
                    }
                }
            }
        },
        Event::Change { .. } => {
            lemma_same_textures(before.renderables@, now.renderables@);
            assert forall|r: int| 0 <= r < now.renderables@.len() implies (
            #[trigger] now.renderables@[r]).texture == texture_of_index(
                now.renderables@[r].texture_index,
            ) by {
                assert(before.renderables@[r].texture == texture_of_index(
                    before.renderables@[r].texture_index,
                ));
            }
        },
        _ => {},
    }
}

/// Law: through any history the texture indices of the renderables are 0, 1, 2
/// and so on, as many as were handed out, and a renderable has a texture exactly
/// where it has an index.
pub proof fn law_textures_stay_in_order<T: UBO + Copy>(
    states: Seq<RenderInstance<T>>,
    events: Seq<Event<T>>,
    setup: SwapchainDesc,
    swapchain: SwapchainWrapper,
    vertex_input: VertexInput,
    n: int,
)
    requires
        is_history(states, events),
        keeps_textures(states, events),
        states[0].is_new(setup, swapchain, vertex_input),
        0 <= n < states.len(),
    ensures
        textures_in_order(states[n]),
    decreases n,
{
    if n == 0 {
        assert(texture_indices(states[0].renderables@) =~= Seq::new(0nat, |i: int| i as u32));
    } else {
        law_textures_stay_in_order(states, events, setup, swapchain, vertex_input, n - 1);
        law_every_state_is_well_formed(states, events, n - 1);
        assert(step(states[n - 1], states[n], events[n - 1]));
        lemma_step_keeps_textures_in_order(states[n - 1], states[n], events[n - 1]);
    }
}

/// The requests to the device that belong to an event.
pub open spec fn requests<T: UBO + Copy>(
    before: RenderInstance<T>,
    now: RenderInstance<T>,
    event: Event<T>,
) -> Seq<GpuAction> {
    match event {
        Event::FileLoad { .. } => match now.renderables@.last().texture_index {
            Some(texture) => texture_actions(before.descriptor_sets, texture),
            None => Seq::empty(),
        },
        Event::Rebuild { dimensions, swapchain } => replace_swapchain_actions(
            before.framebuffers,
            before.command_buffers,
            before.swapchain_setup(dimensions),
        ) + restore_actions(
            swapchain,
            before.msaa_samples,
            before.depth_format,
            before.vertex_input,
            before.renderables@,
        ),
        _ => Seq::empty(),
    }
}

/// The requests of the first `n` events.
pub open spec fn requests_until<T: UBO + Copy>(
    states: Seq<RenderInstance<T>>,
    events: Seq<Event<T>>,
    n: int,
) -> Seq<GpuAction>
    decreases n,
{
    if n <= 0 {
        Seq::empty()
    } else {
        requests_until(states, events, n - 1) + requests(states[n - 1], states[n], events[n - 1])
    }
}

/// Renderers that agree on the counts and the textures own the same.
proof fn lemma_same_owned<T: UBO + Copy>(before: RenderInstance<T>, now: RenderInstance<T>)
    requires
        before.framebuffers == now.framebuffers,
        before.command_buffers == now.command_buffers,
        before.in_flight_frames.count == now.in_flight_frames.count,
        before.uniform_buffers == now.uniform_buffers,
        before.descriptor_sets == now.descriptor_sets,
        scene_textures(before.renderables@) == scene_textures(now.renderables@),
    ensures
        before.owned() == now.owned(),
{
    assert(before.owned() =~= now.owned());
}

/// The requests of an event take the device from what was owned to what is.
proof fn lemma_step_keeps_owned<T: UBO + Copy>(
    before: RenderInstance<T>,
    now: RenderInstance<T>,
    event: Event<T>,
)
    requires
        step(before, now, event),
        before.wf(),
        textures_in_order(before),
        event is Change ==> same_textures(before.renderables@, now.renderables@),
    ensures
        run(before.owned(), requests(before, now, event)) == Some(now.owned()),
{
    lemma_run_nothing();
    match event {
        Event::FileLoad { .. } | Event::ClusterLoad { .. } => {
            let added = now.renderables@.last();
            assert(now.renderables@ =~= before.renderables@.push(added));
            if added.texture_index is Some {
                law_new_texture_is_owned_by_its_renderable(before, added, now);
            } else {
                assert(now.renderables@.drop_last() =~= before.renderables@);
                lemma_same_owned(before, now);
            }
        },
        Event::Change { .. } => {
            lemma_same_textures(before.renderables@, now.renderables@);
            lemma_same_owned(before, now);
        },
        Event::Rebuild { dimensions, swapchain } => {
            law_rebuild_keeps_the_renderer_whole(
                before,
                now,
                before.swapchain_setup(dimensions),
                swapchain,
            );
        },
        _ => {
            lemma_same_owned(before, now);
        },
    }
}

/// Law: through any history every request is in order, and what is alive on the
/// device is exactly what the renderer owns.
pub proof fn law_device_holds_what_is_owned<T: UBO + Copy>(
    states: Seq<RenderInstance<T>>,
    events: Seq<Event<T>>,
    setup: SwapchainDesc,
    swapchain: SwapchainWrapper,
    vertex_input: VertexInput,
    n: int,
)
    requires
        is_history(states, events),
        keeps_textures(states, events),
        states[0].is_new(setup, swapchain, vertex_input),
        0 <= n < states.len(),
    ensures
        run(states[0].owned(), requests_until(states, events, n)) == Some(states[n].owned()),
    decreases n,
{
    if n == 0 {
        lemma_run_nothing();
    } else {
        law_device_holds_what_is_owned(states, events, setup, swapchain, vertex_input, n - 1);
        law_textures_stay_in_order(states, events, setup, swapchain, vertex_input, n - 1);
        law_every_state_is_well_formed(states, events, n - 1);
        assert(step(states[n - 1], states[n], events[n - 1]));
        lemma_step_keeps_owned(states[n - 1], states[n], events[n - 1]);
        lemma_run_concat(
            states[0].owned(),
            requests_until(states, events, n - 1),
            requests(states[n - 1], states[n], events[n - 1]),
        );
    }
}

/// Law: from bringing the renderer up, through any history, to taking it down
/// every request is in order, and nothing is left behind.
pub proof fn law_whole_life_leaves_nothing_behind<T: UBO + Copy>(
    states: Seq<RenderInstance<T>>,
    events: Seq<Event<T>>,
    setup: SwapchainDesc,
    swapchain: SwapchainWrapper,
    vertex_input: VertexInput,
    uniform: DescriptorSetLayoutBinding,
    uniform_size: u64,
)
    requires
        is_history(states, events),
        keeps_textures(states, events),
        states[0].is_new(setup, swapchain, vertex_input),
    ensures
        ({
            let last = states.last();
            run(
                Set::empty(),
                seq![
                    GpuAction::CreateGraphicsCommandPool {
                        queue_family_index: setup.queue_families_indices.graphics_index,
                        flags: COMMAND_POOL_CREATE_NONE,
                    },
                    GpuAction::CreateSwapchain(setup),
                ] + creation_actions(setup, swapchain, vertex_input, uniform, uniform_size)
                    + requests_until(states, events, events.len() as int) + teardown_actions(
                    last.renderables@,
                    last.framebuffers,
                    last.command_buffers,
                    last.descriptor_sets,
                ),
            ) == Some(Set::<Resource>::empty())
        }),
{
    let n = events.len() as int;
    let last = states[n];
    let up = seq![
        GpuAction::CreateGraphicsCommandPool {
            queue_family_index: setup.queue_families_indices.graphics_index,
            flags: COMMAND_POOL_CREATE_NONE,
        },
        GpuAction::CreateSwapchain(setup),
    ] + creation_actions(setup, swapchain, vertex_input, uniform, uniform_size);
    let life = requests_until(states, events, n);
    let down = teardown_actions(
        last.renderables@,
        last.framebuffers,
        last.command_buffers,
        last.descriptor_sets,
    );
    law_create_brings_everything_up(states[0], setup, uniform, uniform_size);
    law_device_holds_what_is_owned(states, events, setup, swapchain, vertex_input, n);
    law_textures_stay_in_order(states, events, setup, swapchain, vertex_input, n);
    law_every_state_is_well_formed(states, events, n);
    law_teardown_leaves_nothing_behind(last);
    lemma_run_concat(Set::empty(), up, life);
    lemma_run_concat(Set::empty(), up + life, down);
}

/// What the command buffers hold after a request.
pub open spec fn buffers_after_one(
    buffers: Map<u32, Seq<Command>>,
    action: GpuAction,
) -> Map<u32, Seq<Command>> {
    match action {
        GpuAction::AllocateCommandBuffers { count, .. } => buffers.union_prefer_right(
            Map::new(|i: u32| i < count, |i: u32| Seq::<Command>::empty()),
        ),
        GpuAction::FreeCommandBuffers { count } => buffers.restrict(Set::new(|i: u32| i >= count)),
        GpuAction::Record { buffer, command } => buffers.insert(
            buffer,
            buffers[buffer].push(command),
        ),
        _ => buffers,
    }
}

/// What the command buffers hold after requests.
pub open spec fn buffers_after(
    buffers: Map<u32, Seq<Command>>,
    actions: Seq<GpuAction>,
) -> Map<u32, Seq<Command>>
    decreases actions.len(),
{
    if actions.len() == 0 {
        buffers
    } else {
        buffers_after_one(buffers_after(buffers, actions.drop_last()), actions.last())
    }
}

/// What the command buffers hold after the first `n` events.
pub open spec fn buffers_until<T: UBO + Copy>(
    states: Seq<RenderInstance<T>>,
    events: Seq<Event<T>>,
    n: int,
) -> Map<u32, Seq<Command>>
    decreases n,
{
    if n <= 0 {
        Map::empty()
    } else {
        buffers_after(
            buffers_until(states, events, n - 1),
            requests(states[n - 1], states[n], events[n - 1]),
        )
    }
}

/// A request that is not about command buffers.
spec fn leaves_buffers(action: GpuAction) -> bool {
    !(action is AllocateCommandBuffers) && !(action is FreeCommandBuffers) && !(action is Record)
}

/// Requests one after the other.
proof fn lemma_buffers_concat(
    buffers: Map<u32, Seq<Command>>,
    first: Seq<GpuAction>,
    second: Seq<GpuAction>,
)
    ensures
        buffers_after(buffers, first + second) == buffers_after(
            buffers_after(buffers, first),
            second,
        ),
    decreases second.len(),
{
    if second.len() == 0 {
        assert(first + second =~= first);
    } else {
        lemma_buffers_concat(buffers, first, second.drop_last());
        assert((first + second).drop_last() =~= first + second.drop_last());
        assert((first + second).last() == second.last());
    }
}

/// Other requests leave the command buffers alone.
proof fn lemma_buffers_left(buffers: Map<u32, Seq<Command>>, actions: Seq<GpuAction>)
    requires
        forall|k: int| 0 <= k < actions.len() ==> leaves_buffers(#[trigger] actions[k]),
    ensures
        buffers_after(buffers, actions) == buffers,
    decreases actions.len(),
{
    if actions.len() > 0 {
        let front = actions.drop_last();
        assert forall|k: int| 0 <= k < front.len() implies leaves_buffers(#[trigger] front[k]) by {
            assert(front[k] == actions[k]);
        }
        lemma_buffers_left(buffers, front);
        assert(leaves_buffers(actions[actions.len() - 1]));
    }
}

/// Recording appends the commands.
proof fn lemma_buffers_recorded(
    buffers: Map<u32, Seq<Command>>,
    buffer: u32,
    commands: Seq<Command>,
)
    requires
        buffers.dom().contains(buffer),
    ensures
        buffers_after(buffers, recorded(buffer, commands)) == buffers.insert(
            buffer,
            buffers[buffer] + commands,
        ),
    decreases commands.len(),
{
    let actions = recorded(buffer, commands);
    if commands.len() == 0 {
        assert(buffers[buffer] + commands =~= buffers[buffer]);
        assert(buffers.insert(buffer, buffers[buffer] + commands) =~= buffers);
    } else {
        let front = commands.drop_last();
        lemma_buffers_recorded(buffers, buffer, front);
        assert(actions.drop_last() =~= recorded(buffer, front));
        assert(actions.last() == GpuAction::Record { buffer, command: commands.last() });
        assert((buffers[buffer] + front).push(commands.last()) =~= buffers[buffer] + commands);
        assert(buffers_after(buffers, actions) =~= buffers.insert(
            buffer,
            buffers[buffer] + commands,
        ));
    }
}

/// The first `count` command buffers are recorded, the others left alone.
proof fn lemma_buffers_recordings(
    buffers: Map<u32, Seq<Command>>,
    count: nat,
    extent: Extent2D,
    renderables: Seq<Renderable>,
)
    requires
        count <= u32::MAX,
        forall|i: u32|
            i < count ==> #[trigger] buffers.dom().contains(i) && buffers[i] == Seq::<
                Command,
            >::empty(),
    ensures
        ({
            let now = buffers_after(buffers, recordings(count, extent, renderables));
            &&& now.dom() == buffers.dom()
            &&& forall|i: u32|
                #[trigger] buffers.dom().contains(i) ==> now[i] == (if i < count {
                    command_stream(i, extent, renderables)
                } else {
                    buffers[i]
                })
        }),
    decreases count,
{
    if count > 0 {
        let front = recordings((count - 1) as nat, extent, renderables);
        let buffer = (count - 1) as u32;
        let stream = command_stream(buffer, extent, renderables);
        lemma_buffers_recordings(buffers, (count - 1) as nat, extent, renderables);
        let before = buffers_after(buffers, front);
        assert(buffers.dom().contains(buffer));
        lemma_buffers_concat(buffers, front, recorded(buffer, stream));
        lemma_buffers_recorded(before, buffer, stream);
        assert(before[buffer] + stream =~= stream);
        let now = buffers_after(buffers, recordings(count, extent, renderables));
        assert(now.dom() =~= buffers.dom());
    }
}

/// The command buffers of the first `count` positions, and no other.
pub open spec fn first_buffers(count: u32) -> Set<u32> {
    Set::new(|i: u32| i < count)
}

/// A rebuild frees the old command buffers and records one for each image.
proof fn lemma_buffers_of_a_rebuild<T: UBO + Copy>(
    buffers: Map<u32, Seq<Command>>,
    before: RenderInstance<T>,
    now: RenderInstance<T>,
    dimensions: Extent2D,
    swapchain: SwapchainWrapper,
)
    requires
        buffers.dom() == first_buffers(before.command_buffers),
    ensures
        ({
            let after = buffers_after(
                buffers,
                requests(before, now, Event::Rebuild { dimensions, swapchain }),
            );
            &&& after.dom() == first_buffers(swapchain.images)
            &&& forall|i: u32|
                i < swapchain.images ==> #[trigger] after[i] == command_stream(
                    i,
                    swapchain.properties.extent,
                    before.renderables@,
                )
        }),
{
    let extent = swapchain.properties.extent;
    let images = swapchain.images;
    let replace = replace_swapchain_actions(
        before.framebuffers,
        before.command_buffers,
        before.swapchain_setup(dimensions),
    );
    let restore = restore_actions(
        swapchain,
        before.msaa_samples,
        before.depth_format,
        before.vertex_input,
        before.renderables@,
    );
    let at = 2 + before.framebuffers;
    let head = replace.take(at);
    let free = replace.subrange(at, at + 1);
    let tail = replace.skip(at + 1);
    assert(replace =~= head + free + tail);
    assert(free[0] == GpuAction::FreeCommandBuffers { count: before.command_buffers });
    lemma_buffers_left(buffers, head);
    let freed = buffers_after_one(buffers, free[0]);
    assert(freed =~= Map::<u32, Seq<Command>>::empty());
    reveal_with_fuel(buffers_after, 2);
    assert(free.drop_last() =~= Seq::<GpuAction>::empty());
    assert(buffers_after(buffers, free) == freed);
    lemma_buffers_left(freed, tail);
    lemma_buffers_concat(buffers, head, free);
    lemma_buffers_concat(buffers, head + free, tail);
    let start = restore.take(6 + images);
    let allocate = restore.subrange(6 + images, 7 + images);
    let records = recordings(images as nat, extent, before.renderables@);
    assert(restore =~= start + allocate + records);
    assert(allocate[0] is AllocateCommandBuffers);
    assert(allocate[0]->AllocateCommandBuffers_count == images);
    lemma_buffers_left(freed, start);
    let allocated = buffers_after_one(freed, allocate[0]);
    assert(allocate.drop_last() =~= Seq::<GpuAction>::empty());
    assert(buffers_after(freed, allocate) == allocated);
    assert(allocated.dom() =~= first_buffers(images));
    assert forall|i: u32| i < images implies #[trigger] allocated.dom().contains(i)
        && allocated[i] == Seq::<Command>::empty() by {}
    lemma_buffers_recordings(allocated, images as nat, extent, before.renderables@);
    lemma_buffers_concat(freed, start, allocate);
    lemma_buffers_concat(freed, start + allocate, records);
    lemma_buffers_concat(buffers, replace, restore);
    assert forall|i: u32| i < images implies #[trigger] buffers_after(buffers, replace + restore)[i]
        == command_stream(i, extent, before.renderables@) by {
        assert(allocated.dom().contains(i));
    }
}

/// Events other than a rebuild leave the command buffers alone.
proof fn lemma_buffers_of_other_events<T: UBO + Copy>(
    buffers: Map<u32, Seq<Command>>,
    before: RenderInstance<T>,
    now: RenderInstance<T>,
    event: Event<T>,
)
    requires
        !(event is Rebuild),
    ensures
        buffers_after(buffers, requests(before, now, event)) == buffers,
{
    lemma_buffers_left(buffers, requests(before, now, event));
}

/// Law: through any history there is a command buffer for each position that
/// the renderer knows of, and no other.
pub proof fn law_command_buffers_are_those_known<T: UBO + Copy>(
    states: Seq<RenderInstance<T>>,
    events: Seq<Event<T>>,
    setup: SwapchainDesc,
    swapchain: SwapchainWrapper,
    vertex_input: VertexInput,
    n: int,
)
    requires
        is_history(states, events),
        states[0].is_new(setup, swapchain, vertex_input),
        0 <= n < states.len(),
    ensures
        buffers_until(states, events, n).dom() == first_buffers(states[n].command_buffers),
    decreases n,
{
    if n == 0 {
        assert(buffers_until(states, events, n).dom() =~= first_buffers(0));
    } else {
        law_command_buffers_are_those_known(states, events, setup, swapchain, vertex_input, n - 1);
        let buffers = buffers_until(states, events, n - 1);
        assert(step(states[n - 1], states[n], events[n - 1]));
        match events[n - 1] {
            Event::Rebuild { dimensions, swapchain: fresh } => {
                lemma_buffers_of_a_rebuild(buffers, states[n - 1], states[n], dimensions, fresh);
            },
            _ => {
                lemma_buffers_of_other_events(buffers, states[n - 1], states[n], events[n - 1]);
            },
        }
    }
}

/// The command buffers stay as they are until the next rebuild.
proof fn lemma_buffers_stay<T: UBO + Copy>(
    states: Seq<RenderInstance<T>>,
    events: Seq<Event<T>>,
    from: int,
    to: int,
)
    requires
        0 <= from <= to <= events.len(),
        forall|k: int| from <= k < to ==> !(#[trigger] events[k] is Rebuild),
    ensures
        buffers_until(states, events, to) == buffers_until(states, events, from),
    decreases to - from,
{
    if from < to {
        lemma_buffers_stay(states, events, from, to - 1);
        lemma_buffers_of_other_events(
            buffers_until(states, events, to - 1),
            states[to - 1],
            states[to],
            events[to - 1],
        );
    }
}

/// Law: from a rebuild until the next one every command buffer draws exactly the
/// renderables that were there at the rebuild; what is loaded or changed since
/// is drawn from the next rebuild on.
pub proof fn law_scene_is_drawn_as_of_the_last_rebuild<T: UBO + Copy>(
    states: Seq<RenderInstance<T>>,
    events: Seq<Event<T>>,
    setup: SwapchainDesc,
    first_swapchain: SwapchainWrapper,
    vertex_input: VertexInput,
    at: int,
    n: int,
    dimensions: Extent2D,
    swapchain: SwapchainWrapper,
    buffer: u32,
)
    requires
        is_history(states, events),
        states[0].is_new(setup, first_swapchain, vertex_input),
        0 <= at < n < states.len(),
        events[at] == (Event::<T>::Rebuild { dimensions, swapchain }),
        forall|k: int| at < k < n ==> !(#[trigger] events[k] is Rebuild),
        buffer < swapchain.images,
    ensures
        buffers_until(states, events, n).dom() == first_buffers(swapchain.images),
        buffers_until(states, events, n)[buffer] == command_stream(
            buffer,
            swapchain.properties.extent,
            states[at].renderables@,
        ),
{
    law_command_buffers_are_those_known(
        states,
        events,
        setup,
        first_swapchain,
        vertex_input,
        at,
    );
    lemma_buffers_of_a_rebuild(
        buffers_until(states, events, at),
        states[at],
        states[at + 1],
        dimensions,
        swapchain,
    );
    lemma_buffers_stay(states, events, at + 1, n);
}

} // verus!
