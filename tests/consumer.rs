use avp::consumer::{ConsumerAction, FrameStamp, VideoConsumer};
use avp::timing::Timebase;

const MS: u64 = 1_000_000;

fn stamp(pts: i64) -> Option<FrameStamp> {
    Some(FrameStamp { pts: Some(pts), timebase: Some(Timebase { num: 1, den: 1000 }) })
}

#[test]
fn frames_are_paced_by_timestamp() {
    let mut c = VideoConsumer::new();
    assert_eq!(c.on_receive(stamp(0), 0), ConsumerAction::Show(0));
    assert_eq!(c.on_receive(stamp(40), 10 * MS), ConsumerAction::Show(30 * MS));
    assert_eq!(c.pacer.prev_pts, Some(40_000_000));
}

#[test]
fn frame_without_timestamp_shows_at_once() {
    let mut c = VideoConsumer::new();
    c.on_receive(stamp(100), 0);
    let none = Some(FrameStamp { pts: None, timebase: Some(Timebase { num: 1, den: 1000 }) });
    assert_eq!(c.on_receive(none, 0), ConsumerAction::Show(0));
    let bad = Some(FrameStamp { pts: Some(5), timebase: Some(Timebase { num: 1, den: 0 }) });
    assert_eq!(c.on_receive(bad, 0), ConsumerAction::Show(0));
    assert_eq!(c.pacer.prev_pts, Some(100_000_000));
}

#[test]
fn closed_channel_finishes_for_good() {
    let mut c = VideoConsumer::new();
    c.on_receive(stamp(0), 0);
    assert_eq!(c.on_receive(None, 0), ConsumerAction::Finish);
    assert!(c.closed);
    assert_eq!(c.on_receive(stamp(40), 0), ConsumerAction::Finish);
    assert_eq!(c.on_receive(None, 0), ConsumerAction::Finish);
}

#[test]
fn closure_before_any_frame_finishes() {
    let mut c = VideoConsumer::new();
    assert_eq!(c.on_closed(), ConsumerAction::Finish);
    assert_eq!(c.on_frame(Some(1), Some(Timebase { num: 1, den: 1 }), 0), ConsumerAction::Finish);
}
