use avp::consumer::{ConsumerAction, FrameStamp, VideoConsumer};
use avp::drain::AudioDrain;
use avp::driver::{
    AudioInfo, DecodeStep, DemuxEvent, StreamDesc, StreamKind, StreamTable, VideoInfo,
};
use avp::timing::Timebase;
use std::collections::VecDeque;

#[test]
fn one_video_and_one_audio_stream_play_through() {
    let streams = vec![
        StreamDesc { index: 0, decodable: true, kind: StreamKind::Video(VideoInfo { width: 320, height: 240 }) },
        StreamDesc { index: 1, decodable: true, kind: StreamKind::Audio(AudioInfo { rate: 48000, channels: 2 }) },
    ];
    let table = StreamTable::select(&streams);
    // the demuxer yields: video 0, audio, video 33, then the end
    let events = [DemuxEvent::Packet(0), DemuxEvent::Packet(1), DemuxEvent::Packet(0), DemuxEvent::End];
    let mut frames: Vec<usize> = Vec::new();
    for ev in events {
        match table.on_event(ev) {
            DecodeStep::Submit(slot) => frames.push(slot),
            DecodeStep::Skip => {},
            DecodeStep::Stop(_) => break,
        }
    }
    assert_eq!(frames, vec![0, 1, 0]);

    let audio: Vec<i16> = (1..=480).collect();
    let mut q: VecDeque<Vec<i16>> = VecDeque::new();
    q.push_back(audio.clone());
    let mut d = AudioDrain::new();
    let mut out = vec![-5i16; 960];
    d.callback(&mut out, &mut q);
    assert_eq!(&out[..480], &audio[..]);
    assert!(out[480..].iter().all(|&v| v == 0));

    let tb = Some(Timebase { num: 1, den: 1000 });
    let mut c = VideoConsumer::new();
    assert_eq!(c.on_receive(Some(FrameStamp { pts: Some(0), timebase: tb }), 0), ConsumerAction::Show(0));
    let elapsed: u64 = 3_000_000;
    assert_eq!(
        c.on_receive(Some(FrameStamp { pts: Some(33), timebase: tb }), elapsed),
        ConsumerAction::Show(33_000_000 - elapsed)
    );
    assert_eq!(c.on_receive(None, 0), ConsumerAction::Finish);
}
