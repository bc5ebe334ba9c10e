use vstd::prelude::*;

verus! {

/// Size of a video stream's picture.
#[derive(Clone, Copy, Debug, PartialEq, Eq, Structural)]
pub struct VideoInfo {
    pub width: usize,
    pub height: usize,
}

/// Sample rate and channel count of an audio stream.
#[derive(Clone, Copy, Debug, PartialEq, Eq, Structural)]
pub struct AudioInfo {
    pub rate: usize,
    pub channels: usize,
}

/// What a container stream carries.
#[derive(Clone, Copy, Debug, PartialEq, Eq, Structural)]
pub enum StreamKind {
    Video(VideoInfo),
    Audio(AudioInfo),
    Other,
}

/// A container stream as the header describes it, and whether the decoder
/// registry knows its codec.
#[derive(Clone, Copy, Debug, PartialEq, Eq, Structural)]
pub struct StreamDesc {
    pub index: isize,
    pub decodable: bool,
    pub kind: StreamKind,
}

/// The indices of the streams that get a decoder, in header order.
pub open spec fn selected(s: Seq<StreamDesc>) -> Seq<isize>
    decreases s.len(),
{
    if s.len() == 0 {
        Seq::empty()
    } else if s.last().decodable {
        selected(s.drop_last()).push(s.last().index)
    } else {
        selected(s.drop_last())
    }
}

/// The picture size of the first decodable video stream.
pub open spec fn first_video(s: Seq<StreamDesc>) -> Option<VideoInfo>
    decreases s.len(),
{
    if s.len() == 0 {
        None
    } else {
        match first_video(s.drop_last()) {
            Some(v) => Some(v),
            None => match s.last().kind {
                StreamKind::Video(v) if s.last().decodable => Some(v),
                _ => None,
            },
        }
    }
}

/// The parameters of the first decodable audio stream.
pub open spec fn first_audio(s: Seq<StreamDesc>) -> Option<AudioInfo>
    decreases s.len(),
{
    if s.len() == 0 {
        None
    } else {
        match first_audio(s.drop_last()) {
            Some(a) => Some(a),
            None => match s.last().kind {
                StreamKind::Audio(a) if s.last().decodable => Some(a),
                _ => None,
            },
        }
    }
}

/// Stream selection: a stream whose codec the registry does not know gets no
/// slot, so a unit of it is never routed to a decoder and is dropped.
pub proof fn lemma_unknown_codec_dropped(streams: Seq<StreamDesc>, index: isize)
    requires
        forall|i: int|
            0 <= i < streams.len() && #[trigger] streams[i].index == index ==> !streams[i].decodable,
    ensures
        !selected(streams).contains(index),
    decreases streams.len(),
{
    if streams.len() > 0 {
        let init = streams.drop_last();
        assert forall|i: int| 0 <= i < init.len() && #[trigger] init[i].index == index implies !init[i].decodable by {
            assert(init[i] == streams[i]);
        }
        lemma_unknown_codec_dropped(init, index);
        assert(streams.last() == streams[streams.len() - 1]);
        if streams.last().decodable {
            assert(selected(streams) == selected(init).push(streams.last().index));
            assert(selected(streams).last() != index);
            assert(selected(streams).drop_last() =~= selected(init));
            if selected(streams).contains(index) {
                let j = choose|j: int| 0 <= j < selected(streams).len() && selected(streams)[j] == index;
                assert(selected(init)[j] == index);
            }
        }
    }
}

/// What the demuxer handed over on one read.
#[derive(Clone, Copy, Debug, PartialEq, Eq, Structural)]
pub enum DemuxEvent {
    /// A unit of the stream with this index.
    Packet(isize),
    /// Anything else that carries no unit, such as a request to read on.
    Other,
    /// The container is used up.
    End,
    /// Reading failed.
    Failed,
}

/// Why the decode loop ends.
#[derive(Clone, Copy, Debug, PartialEq, Eq, Structural)]
pub enum DriverError {
    /// The container ended: the expected way out.
    EndOfStream,
    /// The demuxer could not read on.
    DemuxFailed,
    /// A decoder refused a unit.
    Rejected,
}

/// What the decode loop does with one demuxer event.
#[derive(Clone, Copy, Debug, PartialEq, Eq, Structural)]
pub enum DecodeStep {
    /// Hand the unit to the decoder in this slot, then ask it for a frame.
    Submit(usize),
    /// Drop the unit: no frame this time.
    Skip,
    /// End the decode loop.
    Stop(DriverError),
}

/// What becomes of the decode loop when a decoder refuses a unit.
#[derive(Clone, Copy, Debug, PartialEq, Eq, Structural)]
pub enum RejectPolicy {
    /// The loop ends.
    Fatal,
    /// The unit is dropped and the loop goes on.
    SkipUnit,
}

/// The decoder slots of a container, keyed by stream index, and the first
/// video and audio parameters that size the outputs.
///
/// Slot `p` decodes the stream whose index is `slots[p]`.
#[derive(Debug)]
pub struct StreamTable {
    pub slots: Vec<isize>,
    pub video: Option<VideoInfo>,
    pub audio: Option<AudioInfo>,
}

impl StreamTable {
    /// One slot per stream whose codec the registry knows, in header order.
    pub fn select(streams: &Vec<StreamDesc>) -> (r: StreamTable)
        ensures
            r.slots@ == selected(streams@),
            r.video == first_video(streams@),
            r.audio == first_audio(streams@),
    {
        let mut slots: Vec<isize> = Vec::new();
        let mut video: Option<VideoInfo> = None;
        let mut audio: Option<AudioInfo> = None;
        let mut i: usize = 0;
        assert(streams@.take(0) =~= Seq::<StreamDesc>::empty());
        while i < streams.len()
            invariant
                i <= streams@.len(),
                slots@ == selected(streams@.take(i as int)),
                video == first_video(streams@.take(i as int)),
                audio == first_audio(streams@.take(i as int)),
            decreases streams@.len() - i,
        {
            let st = streams[i];
            assert(streams@.take(i + 1).drop_last() =~= streams@.take(i as int));
            assert(streams@.take(i + 1).last() == st);
            if st.decodable {
                slots.push(st.index);
                match st.kind {
                    StreamKind::Video(v) => {
                        if video.is_none() {
                            video = Some(v);
                        }
                    },
                    StreamKind::Audio(a) => {
                        if audio.is_none() {
                            audio = Some(a);
                        }
                    },
                    StreamKind::Other => {},
                }
            }
            i = i + 1;
        }
        assert(streams@.take(i as int) =~= streams@);
        StreamTable { slots, video, audio }
    }

    /// The slot that decodes the stream `index`: the first one registered for
    /// it, or none where no decoder was set up for that stream.
    pub fn route(&self, index: isize) -> (r: Option<usize>)
        ensures
            r.is_none() <==> !self.slots@.contains(index),
            r.is_some() ==> r.unwrap() < self.slots@.len() && self.slots@[r.unwrap() as int]
                == index,
            r.is_some() ==> forall|p: int| 0 <= p < r.unwrap() ==> self.slots@[p] != index,
    {
        let mut p: usize = 0;
        while p < self.slots.len()
            invariant
                p <= self.slots@.len(),
                forall|q: int| 0 <= q < p ==> self.slots@[q] != index,
            decreases self.slots@.len() - p,
        {
            if self.slots[p] == index {
                return Some(p);
            }
            p = p + 1;
        }
        None
    }

    /// What the decode loop does with a demuxer event: a unit goes to its
    /// stream's slot, or is dropped where that stream has none; the end of
    /// the container and a read failure end the loop.
    pub fn on_event(&self, ev: DemuxEvent) -> (r: DecodeStep)
        ensures
            match ev {
                DemuxEvent::Packet(index) => match r {
                    DecodeStep::Submit(p) => p < self.slots@.len() && self.slots@[p as int] == index
                        && forall|q: int| 0 <= q < p ==> self.slots@[q] != index,
                    DecodeStep::Skip => !self.slots@.contains(index),
                    DecodeStep::Stop(_) => false,
                },
                DemuxEvent::Other => r == DecodeStep::Skip,
                DemuxEvent::End => r == DecodeStep::Stop(DriverError::EndOfStream),
                DemuxEvent::Failed => r == DecodeStep::Stop(DriverError::DemuxFailed),
            },
    {
        match ev {
            DemuxEvent::Packet(index) => match self.route(index) {
                Some(p) => DecodeStep::Submit(p),
                None => DecodeStep::Skip,
            },
            DemuxEvent::Other => DecodeStep::Skip,
            DemuxEvent::End => DecodeStep::Stop(DriverError::EndOfStream),
            DemuxEvent::Failed => DecodeStep::Stop(DriverError::DemuxFailed),
        }
    }
}

/// What follows a submission: with the unit taken, the decoder is asked for
/// a frame (`Ok(true)`); a refused unit ends the loop or is dropped
/// (`Ok(false)`), as the policy says.
pub fn after_submit(accepted: bool, policy: RejectPolicy) -> (r: Result<bool, DriverError>)
    ensures
        accepted ==> r == Ok::<bool, DriverError>(true),
        !accepted && policy == RejectPolicy::Fatal ==> r == Err::<bool, DriverError>(
            DriverError::Rejected,
        ),
        !accepted && policy == RejectPolicy::SkipUnit ==> r == Ok::<bool, DriverError>(false),
{
    if accepted {
        Ok(true)
    } else {
        match policy {
            RejectPolicy::Fatal => Err(DriverError::Rejected),
            RejectPolicy::SkipUnit => Ok(false),
        }
    }
}

} // verus!
