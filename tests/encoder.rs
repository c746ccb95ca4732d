use obcoder::encoder::{
    encoder_settings, EncodeAction, EncodeEvent, EncodeLoop, EncodePhase, BATCH_SIZE,
};
use obcoder::pixel::PixelFormat;

#[test]
fn settings_are_the_fixed_defaults() {
    let s = encoder_settings(1920, 1080, PixelFormat::Nv12);
    assert_eq!(s.width, 1920);
    assert_eq!(s.height, 1080);
    assert_eq!(s.format, PixelFormat::Nv12);
    assert_eq!(s.bit_rate, 1_000_000);
    assert_eq!(s.max_bit_rate, 2_000_000);
    assert_eq!((s.time_base_num, s.time_base_den), (1, 30));
    assert_eq!(s.gop, 30);
}

#[test]
fn nothing_available_finishes_at_once() {
    let (s, a) = EncodeLoop::start(0);
    assert_eq!(a, EncodeAction::Finish);
    assert_eq!(s.phase, EncodePhase::Done);
    assert!(s.is_finished());
}

#[test]
fn every_tenth_submission_drains() {
    let (mut s, mut a) = EncodeLoop::start(25);
    assert_eq!(a, EncodeAction::ReadFrame);
    let mut drains = 0;
    for i in 1..=25usize {
        let (n, b) = s.step(EncodeEvent::FrameRead);
        assert_eq!(b, EncodeAction::SubmitFrame);
        let (n, b) = n.step(EncodeEvent::Submitted);
        s = n;
        a = b;
        if i % BATCH_SIZE == 0 {
            assert_eq!(a, EncodeAction::ReceivePacket);
            assert_eq!(s.phase, EncodePhase::Draining);
            drains += 1;
            let (n, b) = s.step(EncodeEvent::Packet);
            assert_eq!(b, EncodeAction::ReceivePacket);
            let (n, b) = n.step(EncodeEvent::Retry);
            assert_eq!(b, EncodeAction::ReadFrame);
            assert_eq!(n.phase, EncodePhase::Reading);
            s = n;
            a = b;
        } else {
            assert_eq!(a, EncodeAction::ReadFrame);
        }
    }
    assert_eq!(drains, 2);
    let (s, a) = s.step(EncodeEvent::NoFrame);
    assert_eq!(a, EncodeAction::ReceivePacket);
    assert_eq!(s.phase, EncodePhase::FinalDrain);
    let (s, a) = s.step(EncodeEvent::Retry);
    assert_eq!(a, EncodeAction::Finish);
    assert_eq!(s.phase, EncodePhase::Done);
}

#[test]
fn failed_submission_drops_the_batch() {
    let (s, _) = EncodeLoop::start(3);
    let (s, _) = s.step(EncodeEvent::FrameRead);
    let (s, a) = s.step(EncodeEvent::SubmitFailed);
    assert_eq!(a, EncodeAction::Fail);
    assert_eq!(s.phase, EncodePhase::Failed);
    assert_eq!(s.step(EncodeEvent::Packet).1, EncodeAction::Fail);
}

#[test]
fn end_of_stream_inside_a_drain_fails() {
    let (s, _) = EncodeLoop::start(1);
    let (s, _) = s.step(EncodeEvent::NoFrame);
    let (s, a) = s.step(EncodeEvent::EndOfStream);
    assert_eq!(a, EncodeAction::Fail);
    assert_eq!(s.phase, EncodePhase::Failed);
}

#[test]
fn flush_polls_through_retry_until_end_of_stream() {
    let (s, a) = EncodeLoop::start_flush();
    assert_eq!(a, EncodeAction::SubmitEndMarker);
    let (s, a) = s.step(EncodeEvent::Submitted);
    assert_eq!(a, EncodeAction::ReceivePacket);
    let (s, a) = s.step(EncodeEvent::Retry);
    assert_eq!(a, EncodeAction::ReceivePacket);
    let (s, a) = s.step(EncodeEvent::Packet);
    assert_eq!(a, EncodeAction::ReceivePacket);
    let (s, a) = s.step(EncodeEvent::EndOfStream);
    assert_eq!(a, EncodeAction::Finish);
    assert_eq!(s.phase, EncodePhase::Done);
}

#[test]
fn flush_fails_on_a_receive_error() {
    let (s, _) = EncodeLoop::start_flush();
    let (s, _) = s.step(EncodeEvent::Submitted);
    let (s, a) = s.step(EncodeEvent::ReceiveFailed);
    assert_eq!(a, EncodeAction::Fail);
    assert!(s.is_finished());
}
