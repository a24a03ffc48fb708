use renderinstance::frame::{
    frame_draw, frame_presented, frame_start, FrameAction, FrameError, InFlightFrames,
};

const OUT_OF_DATE: i32 = -1000001004;
const DEVICE_LOST: i32 = -4;

#[test]
fn frames_take_turns() {
    let mut frames = InFlightFrames::new(3);
    let order: Vec<u32> = (0..7).map(|_| frames.next()).collect();
    assert_eq!(order, vec![0, 1, 2, 0, 1, 2, 0]);
    assert_eq!(frames, InFlightFrames { count: 3, current: 1 });
}

#[test]
fn single_frame_is_taken_again() {
    let mut frames = InFlightFrames::new(1);
    assert_eq!(frames.next(), 0);
    assert_eq!(frames.next(), 0);
}

#[test]
fn last_of_many_frames_wraps() {
    let mut frames = InFlightFrames { count: u32::MAX, current: u32::MAX - 1 };
    assert_eq!(frames.next(), u32::MAX - 1);
    assert_eq!(frames.next(), 0);
}

#[test]
fn frame_waits_for_its_fence_first() {
    assert_eq!(
        frame_start(2),
        vec![
            FrameAction::WaitForFence { sync: 2, timeout: u64::MAX },
            FrameAction::AcquireNextImage { sync: 2, timeout: u64::MAX },
        ]
    );
}

#[test]
fn frame_without_uniform_data() {
    assert_eq!(
        frame_draw(1, 2, false),
        vec![
            FrameAction::ResetFence { sync: 1 },
            FrameAction::Submit { command_buffer: 2, sync: 1, wait_stage: 0x400 },
            FrameAction::Present { image_index: 2, sync: 1 },
        ]
    );
}

#[test]
fn frame_with_uniform_data() {
    assert_eq!(
        frame_draw(0, 1, true),
        vec![
            FrameAction::ResetFence { sync: 0 },
            FrameAction::CopyUniform { mapping: 1 },
            FrameAction::Submit { command_buffer: 1, sync: 0, wait_stage: 0x400 },
            FrameAction::Present { image_index: 1, sync: 0 },
        ]
    );
}

#[test]
fn presenting_decides_about_the_rebuild() {
    assert_eq!(frame_presented(Ok(false)), Ok(false));
    assert_eq!(frame_presented(Ok(true)), Ok(true));
    assert_eq!(frame_presented(Err(OUT_OF_DATE)), Ok(true));
    assert_eq!(frame_presented(Err(DEVICE_LOST)), Err(FrameError::Present(DEVICE_LOST)));
}
