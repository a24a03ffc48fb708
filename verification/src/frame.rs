//! The frames in flight and the course of drawing one frame.

use vstd::prelude::*;

use crate::vulkan::{ERROR_OUT_OF_DATE_KHR, STAGE_COLOR_ATTACHMENT_OUTPUT};

verus! {

/// How long a wait may take: for ever.
pub const NO_TIMEOUT: u64 = 0xffff_ffff_ffff_ffff;

/// Why a frame could not be drawn.
#[derive(Clone, Copy, Debug, PartialEq, Eq, Structural)]
pub enum FrameError {
    /// No image could be acquired; the status code says why.
    Acquire(i32),
    /// The acquired image has no mapped uniform buffer.
    NoUniformMapping(u32),
    /// The acquired image has no command buffer.
    NoCommandBuffer(u32),
    /// The image could not be presented; the status code says why.
    Present(i32),
}

/// A request to the device while a frame is drawn. `sync` says whose semaphores
/// and whose fence are meant.
#[derive(Clone, Copy, Debug, PartialEq, Eq, Structural)]
pub enum FrameAction {
    WaitForFence { sync: u32, timeout: u64 },
    /// Acquires an image and signals the image semaphore of `sync`.
    AcquireNextImage { sync: u32, timeout: u64 },
    ResetFence { sync: u32 },
    /// Copies the uniform data to the mapping of that index.
    CopyUniform { mapping: u32 },
    /// Submits a command buffer that waits, at `wait_stage`, for the image
    /// semaphore and signals the render semaphore and the fence of `sync`.
    Submit { command_buffer: u32, sync: u32, wait_stage: u32 },
    /// Presents an image after the render semaphore of `sync`.
    Present { image_index: u32, sync: u32 },
}

/// How the drawing of a frame goes on once an image was asked for.
#[derive(Debug)]
pub enum FrameStep {
    /// The frame ends here; whether the swapchain has to be rebuilt.
    Finished(bool),
    /// The requests that draw and present the image.
    Drawing(Vec<FrameAction>),
}

/// The sets of semaphores and fences, used in turn.
#[derive(Clone, Copy, Debug, PartialEq, Eq, Structural)]
pub struct InFlightFrames {
    pub count: u32,
    pub current: u32,
}

impl InFlightFrames {
    /// The next set is one of the sets.
    pub open spec fn wf(&self) -> bool {
        self.current < self.count
    }

    /// Starts with the first of `count` sets.
    pub fn new(count: u32) -> (frames: InFlightFrames)
        requires
            count > 0,
        ensures
            frames == (InFlightFrames { count, current: 0 }),
            frames.wf(),
    {
        InFlightFrames { count, current: 0 }
    }

    /// The frames after one more frame was started.
    pub open spec fn advanced(self) -> InFlightFrames {
        InFlightFrames { count: self.count, current: ((self.current + 1) % self.count as int) as u32 }
    }

    /// The frames after `n` more frames were started.
    pub open spec fn advanced_by(self, n: nat) -> InFlightFrames
        decreases n,
    {
        if n == 0 {
            self
        } else {
            self.advanced_by((n - 1) as nat).advanced()
        }
    }

    /// Takes the set of the next frame.
    pub fn next(&mut self) -> (sync: u32)
        requires
            old(self).wf(),
        ensures
            sync == old(self).current,
            *final(self) == old(self).advanced(),
            final(self).wf(),
    {
        let sync = self.current;
        self.current = (sync + 1) % self.count;
        sync
    }
}

/// The requests that start a frame.
pub open spec fn start_actions(sync: u32) -> Seq<FrameAction> {
    seq![
        FrameAction::WaitForFence { sync, timeout: NO_TIMEOUT },
        FrameAction::AcquireNextImage { sync, timeout: NO_TIMEOUT },
    ]
}

/// The requests that draw and present image `image_index`.
pub open spec fn draw_actions(sync: u32, image_index: u32, has_uniform: bool) -> Seq<FrameAction> {
    seq![FrameAction::ResetFence { sync }] + (if has_uniform {
        seq![FrameAction::CopyUniform { mapping: image_index }]
    } else {
        Seq::empty()
    }) + seq![
        FrameAction::Submit {
            command_buffer: image_index,
            sync,
            wait_stage: STAGE_COLOR_ATTACHMENT_OUTPUT,
        },
        FrameAction::Present { image_index, sync },
    ]
}

/// The requests that start a frame.
pub fn frame_start(sync: u32) -> (actions: Vec<FrameAction>)
    ensures
        actions@ == start_actions(sync),
{
    let mut actions: Vec<FrameAction> = Vec::new();
    actions.push(FrameAction::WaitForFence { sync, timeout: NO_TIMEOUT });
    actions.push(FrameAction::AcquireNextImage { sync, timeout: NO_TIMEOUT });
    assert(actions@ =~= start_actions(sync));
    actions
}

/// The requests that draw and present image `image_index`.
pub fn frame_draw(sync: u32, image_index: u32, has_uniform: bool) -> (actions: Vec<FrameAction>)
    ensures
        actions@ == draw_actions(sync, image_index, has_uniform),
{
    let mut actions: Vec<FrameAction> = Vec::new();
    actions.push(FrameAction::ResetFence { sync });
    if has_uniform {
        actions.push(FrameAction::CopyUniform { mapping: image_index });
    }
    actions.push(
        FrameAction::Submit {
            command_buffer: image_index,
            sync,
            wait_stage: STAGE_COLOR_ATTACHMENT_OUTPUT,
        },
    );
    actions.push(FrameAction::Present { image_index, sync });
    assert(actions@ =~= draw_actions(sync, image_index, has_uniform));
    actions
}

/// How a frame goes on once an image was asked for.
pub open spec fn acquired_outcome(
    acquired: Result<(u32, bool), i32>,
    has_uniform: bool,
    uniform_buffers: u32,
    command_buffers: u32,
) -> Result<Option<u32>, FrameError> {
    match acquired {
        Err(code) => if code == ERROR_OUT_OF_DATE_KHR {
            Ok(None)
        } else {
            Err(FrameError::Acquire(code))
        },
        Ok((image_index, _)) => if has_uniform && image_index >= uniform_buffers {
            Err(FrameError::NoUniformMapping(image_index))
        } else if image_index >= command_buffers {
            Err(FrameError::NoCommandBuffer(image_index))
        } else {
            Ok(Some(image_index))
        },
    }
}

/// Whether the swapchain has to be rebuilt after an image was presented, given
/// whether the swapchain still fits the surface, or the status code.
pub open spec fn presented_outcome(result: Result<bool, i32>) -> Result<bool, FrameError> {
    match result {
        Ok(suboptimal) => Ok(suboptimal),
        Err(code) => if code == ERROR_OUT_OF_DATE_KHR {
            Ok(true)
        } else {
            Err(FrameError::Present(code))
        },
    }
}

/// Ends a frame after its image was presented: whether the swapchain has to be
/// rebuilt.
pub fn frame_presented(result: Result<bool, i32>) -> (outcome: Result<bool, FrameError>)
    ensures
        outcome == presented_outcome(result),
{
    match result {
        Ok(suboptimal) => Ok(suboptimal),
        Err(code) => {
            if code == ERROR_OUT_OF_DATE_KHR {
                Ok(true)
            } else {
                Err(FrameError::Present(code))
            }
        },
    }
}

/// How a whole frame ends: whether the swapchain has to be rebuilt.
pub open spec fn frame_outcome(
    acquired: Result<(u32, bool), i32>,
    presented: Result<bool, i32>,
    has_uniform: bool,
    uniform_buffers: u32,
    command_buffers: u32,
) -> Result<bool, FrameError> {
    match acquired_outcome(acquired, has_uniform, uniform_buffers, command_buffers) {
        Ok(None) => Ok(true),
        Ok(Some(_)) => presented_outcome(presented),
        Err(error) => Err(error),
    }
}

/// Law: a frame asks for a rebuild exactly where the swapchain was out of date
/// when the image was acquired, or was out of date or no longer fitting when
/// the image was presented.
pub proof fn law_rebuild_is_asked_for_when_outdated(
    acquired: Result<(u32, bool), i32>,
    presented: Result<bool, i32>,
    has_uniform: bool,
    uniform_buffers: u32,
    command_buffers: u32,
)
    ensures
        frame_outcome(acquired, presented, has_uniform, uniform_buffers, command_buffers) == Ok::<
            bool,
            FrameError,
        >(true) <==> {
            ||| acquired == Err::<(u32, bool), i32>(ERROR_OUT_OF_DATE_KHR)
            ||| acquired_outcome(acquired, has_uniform, uniform_buffers, command_buffers) matches Ok(
                Some(_),
            ) && (presented == Ok::<bool, i32>(true) || presented == Err::<bool, i32>(
                ERROR_OUT_OF_DATE_KHR,
            ))
        },
{
}

/// Law: the sets are used in turn.
pub proof fn law_frames_take_turns(frames: InFlightFrames, n: nat)
    requires
        frames.wf(),
    ensures
        frames.advanced_by(n).wf(),
        frames.advanced_by(n).count == frames.count,
        frames.advanced_by(n).current == (frames.current + n) % frames.count as int,
    decreases n,
{
    let count = frames.count as int;
    if n > 0 {
        law_frames_take_turns(frames, (n - 1) as nat);
        let before = frames.current + n - 1;
        vstd::arithmetic::div_mod::lemma_add_mod_noop(before, 1, count);
        vstd::arithmetic::div_mod::lemma_mod_bound(before + 1, count);
        vstd::arithmetic::div_mod::lemma_mod_bound(before, count);
        assert((before % count + 1) % count == (before + 1) % count) by {
            if count > 1 {
                vstd::arithmetic::div_mod::lemma_small_mod(1, count as nat);
            } else {
                assert(before % 1 == 0 && (before + 1) % 1 == 0);
            }
        }
    } else {
        vstd::arithmetic::div_mod::lemma_small_mod(frames.current as nat, count as nat);
    }
}

/// Law: a set is not taken again before all other sets were taken.
pub proof fn law_frames_in_flight_share_nothing(frames: InFlightFrames, m: nat, n: nat)
    requires
        frames.wf(),
        m < n < m + frames.count,
    ensures
        frames.advanced_by(m).current != frames.advanced_by(n).current,
{
    law_frames_take_turns(frames, m);
    law_frames_take_turns(frames, n);
    let count = frames.count as int;
    let a = frames.current + m;
    let b = frames.current + n;
    if a % count == b % count {
        vstd::arithmetic::div_mod::lemma_fundamental_div_mod(a, count);
        vstd::arithmetic::div_mod::lemma_fundamental_div_mod(b, count);
        let d = b / count - a / count;
        assert(b - a == count * d) by (nonlinear_arith)
            requires
                a == count * (a / count) + a % count,
                b == count * (b / count) + b % count,
                a % count == b % count,
                d == b / count - a / count,
        ;
        assert(false) by (nonlinear_arith)
            requires
                0 < b - a < count,
                b - a == count * d,
        ;
    }
}

/// The set of semaphores and fences that a request is about.
pub open spec fn sync_of(action: FrameAction) -> Option<u32> {
    match action {
        FrameAction::WaitForFence { sync, .. } => Some(sync),
        FrameAction::AcquireNextImage { sync, .. } => Some(sync),
        FrameAction::ResetFence { sync } => Some(sync),
        FrameAction::CopyUniform { .. } => None,
        FrameAction::Submit { sync, .. } => Some(sync),
        FrameAction::Present { sync, .. } => Some(sync),
    }
}

/// Law: all requests of a frame keep to the set of that frame, the fence is
/// waited for before it is reset and reset before it is submitted again, and
/// the image is presented last.
pub proof fn law_frame_keeps_to_its_set(sync: u32, image_index: u32, has_uniform: bool)
    ensures
        ({
            let frame = start_actions(sync) + draw_actions(sync, image_index, has_uniform);
            let end = frame.len() as int;
            &&& forall|k: int|
                0 <= k < end ==> sync_of(#[trigger] frame[k]) is None || sync_of(frame[k])
                    == Some(sync)
            &&& frame[0] is WaitForFence
            &&& frame[1] is AcquireNextImage
            &&& frame[2] is ResetFence
            &&& frame[end - 2] is Submit
            &&& frame[end - 1] is Present
        }),
{
}

/// The same request with another set of semaphores and fences.
pub open spec fn with_sync(action: FrameAction, sync: u32) -> FrameAction {
    match action {
        FrameAction::WaitForFence { timeout, .. } => FrameAction::WaitForFence { sync, timeout },
        FrameAction::AcquireNextImage { timeout, .. } => FrameAction::AcquireNextImage {
            sync,
            timeout,
        },
        FrameAction::ResetFence { .. } => FrameAction::ResetFence { sync },
        FrameAction::CopyUniform { mapping } => FrameAction::CopyUniform { mapping },
        FrameAction::Submit { command_buffer, wait_stage, .. } => FrameAction::Submit {
            command_buffer,
            sync,
            wait_stage,
        },
        FrameAction::Present { image_index, .. } => FrameAction::Present { image_index, sync },
    }
}

/// Law: a frame submits one command buffer and presents one image, and both are
/// those of the acquired image, whatever set of frame objects the frame uses. The
/// uniform data, where there is any, goes to the mapping of that image before the
/// command buffer is submitted. The device may run ahead up to the color output.
pub proof fn law_frame_submits_the_image_it_presents(
    sync: u32,
    image_index: u32,
    has_uniform: bool,
    frame: Vec<FrameAction>,
)
    requires
        call_ensures(frame_draw, (sync, image_index, has_uniform), frame),
    ensures
        frame@ == draw_actions(sync, image_index, has_uniform),
        exists|k: int| 0 <= k < frame@.len() && #[trigger] frame@[k] is Submit,
        exists|k: int| 0 <= k < frame@.len() && #[trigger] frame@[k] is Present,
        forall|k: int|
            0 <= k < frame@.len() ==> {
                &&& #[trigger] frame@[k] matches FrameAction::Submit { command_buffer, .. }
                    ==> command_buffer == image_index
                &&& frame@[k] matches FrameAction::Submit { wait_stage, .. } ==> wait_stage == 0x400
                &&& frame@[k] matches FrameAction::Present { image_index: shown, .. } ==> shown
                    == image_index
                &&& frame@[k] matches FrameAction::CopyUniform { mapping } ==> has_uniform
                    && mapping == image_index
            },
        has_uniform ==> exists|k: int|
            0 <= k < frame@.len() && #[trigger] frame@[k] is CopyUniform,
        forall|j: int, k: int|
            0 <= j < frame@.len() && 0 <= k < frame@.len() && #[trigger] frame@[j] is Submit
                && #[trigger] frame@[k] is Submit ==> j == k,
        forall|j: int, k: int|
            0 <= j < frame@.len() && 0 <= k < frame@.len() && #[trigger] frame@[j] is Present
                && #[trigger] frame@[k] is Present ==> j == k,
        forall|j: int, k: int|
            0 <= j < frame@.len() && 0 <= k < frame@.len() && #[trigger] frame@[j] is CopyUniform
                && #[trigger] frame@[k] is Submit ==> j < k,
{
    let end = frame@.len() as int;
    assert(frame@[end - 2] is Submit);
    assert(frame@[end - 1] is Present);
    if has_uniform {
        assert(frame@[1] is CopyUniform);
    }
}

/// Law: frames of the same image differ only in the set of semaphores and fences
/// that they use.
pub proof fn law_frames_of_an_image_differ_only_in_their_set(
    sync: u32,
    other: u32,
    image_index: u32,
    has_uniform: bool,
)
    ensures
        draw_actions(other, image_index, has_uniform) == draw_actions(
            sync,
            image_index,
            has_uniform,
        ).map_values(|action: FrameAction| with_sync(action, other)),
        start_actions(other) == start_actions(sync).map_values(
            |action: FrameAction| with_sync(action, other),
        ),
{
    assert(draw_actions(other, image_index, has_uniform) =~= draw_actions(
        sync,
        image_index,
        has_uniform,
    ).map_values(|action: FrameAction| with_sync(action, other)));
    assert(start_actions(other) =~= start_actions(sync).map_values(
        |action: FrameAction| with_sync(action, other),
    ));
}

/// Law: a frame waits as long as it takes for the frame before it in its set, and
/// then as long as it takes for an image.
pub proof fn law_frame_waits_as_long_as_it_takes(sync: u32, start: Vec<FrameAction>)
    requires
        call_ensures(frame_start, (sync,), start),
    ensures
        start@.len() == 2,
        start@[0] == (FrameAction::WaitForFence { sync, timeout: u64::MAX }),
        start@[1] == (FrameAction::AcquireNextImage { sync, timeout: u64::MAX }),
{
}

/// Law: an acquired image is drawn exactly where it has a command buffer and, if
/// there is uniform data, a mapping for it; whether the swapchain still fits does
/// not matter then. An outdated swapchain ends the frame without an error, and any
/// other failure is reported with its code.
pub proof fn law_acquired_images_are_drawn(
    acquired: Result<(u32, bool), i32>,
    has_uniform: bool,
    uniform_buffers: u32,
    command_buffers: u32,
)
    ensures
        ({
            let outcome = acquired_outcome(
                acquired,
                has_uniform,
                uniform_buffers,
                command_buffers,
            );
            &&& outcome matches Ok(Some(image)) ==> {
                &&& acquired is Ok && acquired->Ok_0.0 == image
                &&& image < command_buffers
                &&& has_uniform ==> image < uniform_buffers
            }
            &&& outcome matches Ok(None) ==> acquired is Err && acquired->Err_0 == -1000001004
            &&& outcome matches Err(FrameError::Acquire(code)) ==> acquired is Err
                && acquired->Err_0 == code && code != -1000001004
            &&& outcome matches Err(FrameError::NoUniformMapping(image)) ==> acquired is Ok
                && acquired->Ok_0.0 == image && has_uniform && image >= uniform_buffers
            &&& outcome matches Err(FrameError::NoCommandBuffer(image)) ==> acquired is Ok
                && acquired->Ok_0.0 == image && image >= command_buffers && !(has_uniform && image
                >= uniform_buffers)
            &&& !(outcome matches Err(FrameError::Present(_)))
        }),
        acquired matches Ok((image, fits)) ==> acquired_outcome(
            acquired,
            has_uniform,
            uniform_buffers,
            command_buffers,
        ) == acquired_outcome(
            Ok((image, !fits)),
            has_uniform,
            uniform_buffers,
            command_buffers,
        ),
{
}

/// Law: presenting asks for a rebuild where the swapchain no longer fits or is
/// outdated, and reports any other failure with its code.
pub proof fn law_presenting_reports_what_happened(
    presented: Result<bool, i32>,
    outcome: Result<bool, FrameError>,
)
    requires
        call_ensures(frame_presented, (presented,), outcome),
    ensures
        outcome == presented_outcome(presented),
        outcome is Err <==> presented is Err && presented->Err_0 != -1000001004,
        outcome matches Err(error) ==> error == FrameError::Present(presented->Err_0),
        outcome matches Ok(rebuild) ==> (rebuild <==> presented is Err || presented->Ok_0),
{
}

/// Law: after a frame the next of the sets has its turn, and after the last of them
/// the first.
pub proof fn law_sets_follow_in_a_circle(frames: InFlightFrames)
    requires
        frames.wf(),
    ensures
        frames.advanced().count == frames.count,
        frames.advanced().current == (if frames.current + 1 == frames.count {
            0
        } else {
            frames.current + 1
        }),
{
    let count = frames.count as int;
    if frames.current + 1 == frames.count {
        vstd::arithmetic::div_mod::lemma_mod_self_0(count);
    } else {
        vstd::arithmetic::div_mod::lemma_small_mod((frames.current + 1) as nat, count as nat);
    }
}

} // verus!
