use moq_radio::catchup::{
    clock_target, fast_forward, frame_duration_ms, CatchUp, CatchUpAction, CatchUpEvent,
};
use moq_radio::wire::{clock_frame, frame, unframe, FrameError};

#[test]
fn frame_duration_values() {
    assert_eq!(frame_duration_ms(960, 48000), 20);
    assert_eq!(frame_duration_ms(1, 48000), 0);
    assert_eq!(frame_duration_ms(47, 48), 979);
    assert_eq!(frame_duration_ms(u32::MAX, 1), u32::MAX as u64 * 1000);
}

#[test]
fn clock_target_defaults_to_zero() {
    assert_eq!(clock_target(None), 0);
    assert_eq!(clock_target(Some(&clock_frame(500)[..])), 500);
    assert_eq!(clock_target(Some(&frame(&[1, 2, 3])[..])), 0);
    assert_eq!(clock_target(Some(&[0u8, 0][..])), 0);
}

#[test]
fn late_join_skips_to_live_offset() {
    let target = clock_target(Some(&clock_frame(500)[..]));
    assert_eq!(target, 500);
    let mut state = CatchUp::new(target);
    assert_eq!(state.start(), CatchUpAction::ReadFrame);
    let mut frames_read = 0;
    loop {
        let action = state.step(CatchUpEvent::Frame(Some(960)));
        frames_read += 1;
        if action == CatchUpAction::StartLive {
            break;
        }
        assert_eq!(action, CatchUpAction::ReadFrame);
    }
    assert_eq!(frames_read, 25);
    assert_eq!(state.dropped_ms, 500);
    assert!(state.dropped_ms >= 500);
    // The first relayed frame is frame 26, which starts at 500 ms.
    assert_eq!(fast_forward(&vec![Some(960); 100], 500), Some(25));
}

#[test]
fn fast_forward_stops_at_end_of_track() {
    assert_eq!(fast_forward(&vec![Some(960); 10], 500), None);
    assert_eq!(fast_forward(&vec![], 1), None);
    assert_eq!(fast_forward(&vec![], 0), Some(0));
    assert_eq!(fast_forward(&vec![Some(960); 3], u64::MAX), None);
}

#[test]
fn undecodable_frames_count_nothing() {
    let decoded = vec![None, Some(960), None, Some(960)];
    assert_eq!(fast_forward(&decoded, 40), Some(4));
    assert_eq!(fast_forward(&decoded, 20), Some(2));
}

#[test]
fn dropped_ms_never_decreases() {
    let mut state = CatchUp::new(1_000_000);
    let mut last = 0;
    for d in [Some(960), None, Some(0), Some(2880), None, Some(480)] {
        state.skip(d);
        assert!(state.dropped_ms >= last);
        last = state.dropped_ms;
    }
    assert_eq!(state.dropped_ms, 20 + 60 + 10);
    assert_eq!(state.frames_skipped, 6);
}

#[test]
fn group_and_stream_ends() {
    let mut state = CatchUp::new(100);
    assert_eq!(state.step(CatchUpEvent::GroupEnded), CatchUpAction::NextGroup);
    assert_eq!(state.step(CatchUpEvent::StreamEnded), CatchUpAction::NoContent);
    assert_eq!(state.dropped_ms, 0);
    let mut live = CatchUp::new(0);
    assert_eq!(live.start(), CatchUpAction::StartLive);
    assert_eq!(live.step(CatchUpEvent::StreamEnded), CatchUpAction::StartLive);
}

#[test]
fn skipped_total_saturates() {
    let mut state = CatchUp { target_ms: u64::MAX, dropped_ms: u64::MAX - 5, frames_skipped: 0 };
    assert_eq!(state.step(CatchUpEvent::Frame(Some(960))), CatchUpAction::StartLive);
    assert_eq!(state.dropped_ms, u64::MAX);
}

#[test]
fn truncated_frame_during_catch_up_adds_nothing() {
    let mut state = CatchUp::new(40);
    let mut bad = vec![0u8, 0, 0x0f, 0xa0];
    bad.extend_from_slice(&[1u8; 10]);
    let packet = unframe(&bad);
    assert_eq!(packet, Err(FrameError::Truncated { declared: 4000, available: 10 }));
    assert_eq!(state.step_frame(&packet, Some(960)), CatchUpAction::ReadFrame);
    assert_eq!(state.dropped_ms, 0);
    assert_eq!(state.frames_skipped, 1);
    let good = unframe(&frame(&[7, 7, 7]));
    assert_eq!(state.step_frame(&good, Some(960)), CatchUpAction::ReadFrame);
    assert_eq!(state.step_frame(&good, Some(960)), CatchUpAction::StartLive);
    assert_eq!(state.dropped_ms, 40);
}
