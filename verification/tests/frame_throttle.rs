use shared::frame_throttle::{FrameAction, FrameThrottle};

#[test]
fn first_frame_is_decoded() {
    let mut throttle = FrameThrottle::new();
    assert!(!throttle.is_busy());
    assert_eq!(throttle.frame_arrived(), FrameAction::Decode);
    assert!(throttle.is_busy());
}

#[test]
fn frames_during_decoding_are_dropped() {
    let mut throttle = FrameThrottle::new();
    assert_eq!(throttle.frame_arrived(), FrameAction::Decode);
    assert_eq!(throttle.frame_arrived(), FrameAction::Drop);
    assert_eq!(throttle.frame_arrived(), FrameAction::Drop);
    assert!(throttle.is_busy());
}

#[test]
fn finishing_readmits_frames() {
    let mut throttle = FrameThrottle::new();
    assert_eq!(throttle.frame_arrived(), FrameAction::Decode);
    throttle.frame_finished();
    assert!(!throttle.is_busy());
    assert_eq!(throttle.frame_arrived(), FrameAction::Decode);
    // finishing an idle throttle keeps it idle
    throttle.frame_finished();
    throttle.frame_finished();
    assert!(!throttle.is_busy());
}
