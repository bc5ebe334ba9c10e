use avp::driver::{
    after_submit, AudioInfo, DecodeStep, DemuxEvent, DriverError, RejectPolicy, StreamDesc,
    StreamKind, StreamTable, VideoInfo,
};

fn streams() -> Vec<StreamDesc> {
    vec![
        StreamDesc { index: 0, decodable: true, kind: StreamKind::Video(VideoInfo { width: 640, height: 360 }) },
        StreamDesc { index: 1, decodable: false, kind: StreamKind::Other },
        StreamDesc { index: 2, decodable: true, kind: StreamKind::Audio(AudioInfo { rate: 48000, channels: 2 }) },
        StreamDesc { index: 3, decodable: true, kind: StreamKind::Video(VideoInfo { width: 1920, height: 1080 }) },
        StreamDesc { index: 4, decodable: false, kind: StreamKind::Audio(AudioInfo { rate: 8000, channels: 1 }) },
    ]
}

#[test]
fn select_keeps_decodable_streams_in_order() {
    let t = StreamTable::select(&streams());
    assert_eq!(t.slots, vec![0, 2, 3]);
    assert_eq!(t.video, Some(VideoInfo { width: 640, height: 360 }));
    assert_eq!(t.audio, Some(AudioInfo { rate: 48000, channels: 2 }));
}

#[test]
fn select_of_nothing_decodable_is_empty() {
    let s = vec![StreamDesc { index: 5, decodable: false, kind: StreamKind::Video(VideoInfo { width: 1, height: 1 }) }];
    let t = StreamTable::select(&s);
    assert!(t.slots.is_empty());
    assert_eq!(t.video, None);
    assert_eq!(t.audio, None);
    assert_eq!(t.on_event(DemuxEvent::Packet(5)), DecodeStep::Skip);
}

#[test]
fn units_of_unknown_streams_are_dropped() {
    let t = StreamTable::select(&streams());
    assert_eq!(t.on_event(DemuxEvent::Packet(1)), DecodeStep::Skip);
    assert_eq!(t.on_event(DemuxEvent::Packet(4)), DecodeStep::Skip);
    assert_eq!(t.on_event(DemuxEvent::Packet(-7)), DecodeStep::Skip);
    assert_eq!(t.route(1), None);
}

#[test]
fn units_go_to_their_stream_slot() {
    let t = StreamTable::select(&streams());
    assert_eq!(t.on_event(DemuxEvent::Packet(0)), DecodeStep::Submit(0));
    assert_eq!(t.on_event(DemuxEvent::Packet(2)), DecodeStep::Submit(1));
    assert_eq!(t.on_event(DemuxEvent::Packet(3)), DecodeStep::Submit(2));
}

#[test]
fn end_and_failure_stop_the_loop() {
    let t = StreamTable::select(&streams());
    assert_eq!(t.on_event(DemuxEvent::End), DecodeStep::Stop(DriverError::EndOfStream));
    assert_eq!(t.on_event(DemuxEvent::Failed), DecodeStep::Stop(DriverError::DemuxFailed));
    assert_eq!(t.on_event(DemuxEvent::Other), DecodeStep::Skip);
}

#[test]
fn refused_unit_follows_policy() {
    assert_eq!(after_submit(true, RejectPolicy::Fatal), Ok(true));
    assert_eq!(after_submit(true, RejectPolicy::SkipUnit), Ok(true));
    assert_eq!(after_submit(false, RejectPolicy::Fatal), Err(DriverError::Rejected));
    assert_eq!(after_submit(false, RejectPolicy::SkipUnit), Ok(false));
}
