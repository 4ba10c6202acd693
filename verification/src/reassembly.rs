//! Host-side handling of the incoming video stream: reassembly of fragmented
//! frames from datagrams, and codec configurations from unidirectional streams.
//!
//! Freshness beats completeness for a live mirror: datagrams of frames older
//! than the newest frame seen are dropped.

use vstd::prelude::*;

use crate::message::MessageType;
use crate::version::{decode_header_spec, Header, HEADER_SIZE};
use crate::video::{
    decode_frame_header_spec, decode_video_config_spec, is_frame_stale, is_stale_spec, VideoConfig,
    VideoConfigView, VideoFrameHeader, VIDEO_FRAME_HEADER_SIZE,
};

verus! {

/// What the network side hands to the display side.
#[derive(Debug)]
pub enum VideoGuiMessage {
    /// Codec parameter sets to (re)initialize the decoder.
    Config { sps: Vec<u8>, pps: Vec<u8> },
    /// A complete encoded frame.
    Frame { data: Vec<u8>, timestamp_us: u64, is_keyframe: bool },
}

/// The value of a `VideoGuiMessage`.
pub enum VideoGuiMessageView {
    Config { sps: Seq<u8>, pps: Seq<u8> },
    Frame { data: Seq<u8>, timestamp_us: u64, is_keyframe: bool },
}

impl View for VideoGuiMessage {
    type V = VideoGuiMessageView;

    open spec fn view(&self) -> VideoGuiMessageView {
        match self {
            VideoGuiMessage::Config { sps, pps } => VideoGuiMessageView::Config { sps: sps@, pps: pps@ },
            VideoGuiMessage::Frame { data, timestamp_us, is_keyframe } => VideoGuiMessageView::Frame {
                data: data@,
                timestamp_us: *timestamp_us,
                is_keyframe: *is_keyframe,
            },
        }
    }
}

/// Stream type byte that opens a unidirectional codec-configuration stream.
pub const VIDEO_CONFIG_STREAM: u8 = 0x31;

/// Stream type byte that opens the bidirectional control-plane stream.
pub const CONTROL_PLANE_STREAM: u8 = 0x50;

/// The codec configuration carried by a unidirectional stream, if the stream
/// type is the configuration stream and its contents are a HyperLink packet
/// of type `VideoConfig` whose payload decodes.
pub open spec fn config_stream_spec(stream_type: u8, contents: Seq<u8>) -> Option<VideoConfigView> {
    if stream_type != VIDEO_CONFIG_STREAM {
        None
    } else {
        match decode_header_spec(contents) {
            Ok(h) => if h.message_type == MessageType::VideoConfig {
                match decode_video_config_spec(contents.skip(10)) {
                    Ok(c) => Some(c),
                    Err(_) => None,
                }
            } else {
                None
            },
            Err(_) => None,
        }
    }
}

/// Reads a codec configuration off a unidirectional stream given its type
/// byte and the rest of its contents.
pub fn accept_config_stream(stream_type: u8, contents: &[u8]) -> (r: Option<VideoGuiMessage>)
    ensures
        match config_stream_spec(stream_type, contents@) {
            Some(c) => r matches Some(m) && m@ == VideoGuiMessageView::Config { sps: c.sps, pps: c.pps },
            None => r is None,
        },
{
    if stream_type != VIDEO_CONFIG_STREAM {
        return None;
    }
    match Header::decode(contents) {
        Ok(header) => {
            if header.message_type != MessageType::VideoConfig {
                return None;
            }
            let payload = vstd::slice::slice_subrange(contents, HEADER_SIZE, contents.len());
            assert(payload@ =~= contents@.skip(10));
            match VideoConfig::decode(payload) {
                Ok(config) => Some(VideoGuiMessage::Config { sps: config.sps, pps: config.pps }),
                Err(_) => None,
            }
        },
        Err(_) => None,
    }
}

/// The video frame header and fragment payload that a datagram carries, if it
/// is a HyperLink `VideoFrame` packet whose frame header decodes. The
/// fragment payload is everything after the two headers.
pub open spec fn video_datagram_spec(d: Seq<u8>) -> Option<(VideoFrameHeader, Seq<u8>)> {
    match decode_header_spec(d) {
        Ok(h) => if h.message_type == MessageType::VideoFrame {
            match decode_frame_header_spec(d.skip(10)) {
                Ok(vh) => Some((vh, d.skip(35))),
                Err(_) => None,
            }
        } else {
            None
        },
        Err(_) => None,
    }
}

/// The state of frame reassembly.
pub struct ReassemblyView {
    pub newest_seen_id: u32,
    pub current_frame_id: Option<u32>,
    pub fragments: Seq<Option<Seq<u8>>>,
    pub received_count: nat,
    pub is_keyframe: bool,
    pub timestamp_us: u64,
}

/// Number of fragments received so far.
pub open spec fn count_received(f: Seq<Option<Seq<u8>>>) -> nat
    decreases f.len(),
{
    if f.len() == 0 {
        0
    } else {
        count_received(f.drop_last()) + if f.last() is Some {
            1nat
        } else {
            0nat
        }
    }
}

/// The received fragments joined in index order (missing ones skipped).
pub open spec fn join_fragments(f: Seq<Option<Seq<u8>>>) -> Seq<u8>
    decreases f.len(),
{
    if f.len() == 0 {
        seq![]
    } else {
        join_fragments(f.drop_last()) + match f.last() {
            Some(x) => x,
            None => seq![],
        }
    }
}

/// The state after a datagram is taken in, and the frame completed by it:
/// a datagram that is not a video fragment, or belongs to a stale frame, is
/// dropped; a newer frame id starts a new frame with `fragment_count` empty
/// slots; a fragment fills its slot if the slot is in range and still empty;
/// a frame is handed out when its last empty slot is filled.
pub open spec fn reassembly_step(s: ReassemblyView, d: Seq<u8>) -> (ReassemblyView, Option<
    VideoGuiMessageView,
>) {
    match video_datagram_spec(d) {
        None => (s, None),
        Some((vh, payload)) => if is_stale_spec(vh.frame_id, s.newest_seen_id) {
            (s, None)
        } else {
            let newest = if vh.frame_id > s.newest_seen_id {
                vh.frame_id
            } else {
                s.newest_seen_id
            };
            let s1 = if s.current_frame_id == Some(vh.frame_id) {
                ReassemblyView { newest_seen_id: newest, ..s }
            } else {
                ReassemblyView {
                    newest_seen_id: newest,
                    current_frame_id: Some(vh.frame_id),
                    fragments: Seq::new(vh.fragment_count as nat, |i: int| None),
                    received_count: 0,
                    is_keyframe: vh.is_keyframe,
                    timestamp_us: vh.timestamp_us,
                }
            };
            let idx = vh.fragment_idx as int;
            if idx < s1.fragments.len() && s1.fragments[idx] is None {
                let s2 = ReassemblyView {
                    fragments: s1.fragments.update(idx, Some(payload)),
                    received_count: s1.received_count + 1,
                    ..s1
                };
                if s2.received_count == s2.fragments.len() {
                    (
                        s2,
                        Some(
                            VideoGuiMessageView::Frame {
                                data: join_fragments(s2.fragments),
                                timestamp_us: s2.timestamp_us,
                                is_keyframe: s2.is_keyframe,
                            },
                        ),
                    )
                } else {
                    (s2, None)
                }
            } else {
                (s1, None)
            }
        },
    }
}

/// Reassembles fragmented video frames from datagrams.
pub struct FrameReassembler {
    newest_seen_id: u32,
    current_frame_id: Option<u32>,
    fragments: Vec<Option<Vec<u8>>>,
    received_count: usize,
    current_is_keyframe: bool,
    current_timestamp: u64,
}

/// The value of a list of fragment slots.
pub open spec fn fragments_view(v: Seq<Option<Vec<u8>>>) -> Seq<Option<Seq<u8>>> {
    Seq::new(
        v.len(),
        |i: int|
            match v[i] {
                Some(x) => Some(x@),
                None => None,
            },
    )
}

impl View for FrameReassembler {
    type V = ReassemblyView;

    closed spec fn view(&self) -> ReassemblyView {
        ReassemblyView {
            newest_seen_id: self.newest_seen_id,
            current_frame_id: self.current_frame_id,
            fragments: fragments_view(self.fragments@),
            received_count: self.received_count as nat,
            is_keyframe: self.current_is_keyframe,
            timestamp_us: self.current_timestamp,
        }
    }
}

proof fn lemma_count_received_bounds(f: Seq<Option<Seq<u8>>>)
    ensures
        count_received(f) <= f.len(),
        count_received(f) == f.len() ==> forall|i: int| 0 <= i < f.len() ==> (#[trigger] f[i]) is Some,
    decreases f.len(),
{
    if f.len() > 0 {
        lemma_count_received_bounds(f.drop_last());
        if count_received(f) == f.len() {
            assert forall|i: int| 0 <= i < f.len() implies (#[trigger] f[i]) is Some by {
                if i < f.len() - 1 {
                    assert(f.drop_last()[i] == f[i]);
                }
            }
        }
    }
}

proof fn lemma_count_received_fill(f: Seq<Option<Seq<u8>>>, i: int, x: Seq<u8>)
    requires
        0 <= i < f.len(),
        f[i] is None,
    ensures
        count_received(f.update(i, Some(x))) == count_received(f) + 1,
    decreases f.len(),
{
    let g = f.update(i, Some(x));
    if i < f.len() - 1 {
        assert(g.drop_last() =~= f.drop_last().update(i, Some(x)));
        lemma_count_received_fill(f.drop_last(), i, x);
    } else {
        assert(g.drop_last() =~= f.drop_last());
    }
}

proof fn lemma_count_received_empty(n: nat)
    ensures
        count_received(Seq::new(n, |i: int| None::<Seq<u8>>)) == 0,
    decreases n,
{
    if n > 0 {
        let f = Seq::new(n, |i: int| None::<Seq<u8>>);
        assert(f.drop_last() =~= Seq::new((n - 1) as nat, |i: int| None::<Seq<u8>>));
        lemma_count_received_empty((n - 1) as nat);
    }
}

impl FrameReassembler {
    #[verifier::type_invariant]
    closed spec fn wf(&self) -> bool {
        &&& self.received_count == count_received(fragments_view(self.fragments@))
        &&& self.fragments@.len() <= u16::MAX
    }

    /// A reassembler that has seen no frame yet.
    pub fn new() -> (r: FrameReassembler)
        ensures
            r@ == fresh_reassembly(),
    {
        let r = FrameReassembler {
            newest_seen_id: 0,
            current_frame_id: None,
            fragments: Vec::new(),
            received_count: 0,
            current_is_keyframe: false,
            current_timestamp: 0,
        };
        assert(fragments_view(r.fragments@) =~= Seq::empty());
        r
    }

    /// Takes in one datagram; hands out the frame that it completes, if any.
    pub fn accept_datagram(&mut self, datagram: &[u8]) -> (r: Option<VideoGuiMessage>)
        ensures
            final(self)@ == reassembly_step(old(self)@, datagram@).0,
            match reassembly_step(old(self)@, datagram@).1 {
                Some(m) => r matches Some(x) && x@ == m,
                None => r is None,
            },
    {
        proof {
            use_type_invariant(&*self);
        }
        let header = match Header::decode(datagram) {
            Ok(h) => h,
            Err(_) => {
                return None;
            },
        };
        if header.message_type != MessageType::VideoFrame {
            return None;
        }
        let payload = vstd::slice::slice_subrange(datagram, HEADER_SIZE, datagram.len());
        assert(payload@ =~= datagram@.skip(10));
        let vh = match VideoFrameHeader::decode(payload) {
            Ok(v) => v,
            Err(_) => {
                return None;
            },
        };
        let ghost fragment = datagram@.skip(35);
        assert(payload@.skip(25) =~= fragment);
        if is_frame_stale(vh.frame_id, self.newest_seen_id) {
            return None;
        }
        let newest = if vh.frame_id > self.newest_seen_id {
            vh.frame_id
        } else {
            self.newest_seen_id
        };
        let mut state = FrameReassembler::new();
        std::mem::swap(&mut state, self);
        proof {
            use_type_invariant(&state);
        }
        let FrameReassembler {
            newest_seen_id: _,
            current_frame_id,
            fragments: mut fragments,
            received_count: mut received,
            current_is_keyframe: mut is_keyframe,
            current_timestamp: mut timestamp,
        } = state;
        let same_frame = match current_frame_id {
            Some(id) => id == vh.frame_id,
            None => false,
        };
        if !same_frame {
            let mut fresh: Vec<Option<Vec<u8>>> = Vec::new();
            let mut k: u16 = 0;
            while k < vh.fragment_count
                invariant
                    0 <= k <= vh.fragment_count,
                    fragments_view(fresh@) =~= Seq::new(k as nat, |i: int| None::<Seq<u8>>),
                decreases vh.fragment_count - k,
            {
                let ghost before = fresh@;
                fresh.push(None);
                proof {
                    assert(fragments_view(fresh@) =~= fragments_view(before).push(None));
                }
                k = k + 1;
            }
            proof {
                lemma_count_received_empty(vh.fragment_count as nat);
            }
            fragments = fresh;
            received = 0;
            is_keyframe = vh.is_keyframe;
            timestamp = vh.timestamp_us;
        }
        let ghost f1 = fragments_view(fragments@);
        let idx = vh.fragment_idx as usize;
        let mut out: Option<VideoGuiMessage> = None;
        if idx < fragments.len() && fragments[idx].is_none() {
            let piece = vstd::slice::slice_to_vec(
                vstd::slice::slice_subrange(payload, VIDEO_FRAME_HEADER_SIZE, payload.len()),
            );
            proof {
                lemma_count_received_fill(f1, idx as int, piece@);
                lemma_count_received_bounds(f1);
            }
            fragments.set(idx, Some(piece));
            received = received + 1;
            proof {
                assert(fragments_view(fragments@) =~= f1.update(idx as int, Some(fragment)));
            }
            if received == fragments.len() {
                let mut data: Vec<u8> = Vec::new();
                let mut j: usize = 0;
                while j < fragments.len()
                    invariant
                        0 <= j <= fragments@.len(),
                        data@ == join_fragments(fragments_view(fragments@).take(j as int)),
                    decreases fragments@.len() - j,
                {
                    let ghost before = data@;
                    match &fragments[j] {
                        Some(x) => {
                            crate::wire::push_bytes(&mut data, x.as_slice());
                        },
                        None => {},
                    }
                    proof {
                        let fv = fragments_view(fragments@);
                        assert(fv.take(j + 1).drop_last() =~= fv.take(j as int));
                        assert(fv.take(j + 1).last() == fv[j as int]);
                    }
                    j = j + 1;
                }
                assert(fragments_view(fragments@).take(fragments@.len() as int) =~= fragments_view(
                    fragments@,
                ));
                out = Some(VideoGuiMessage::Frame { data, timestamp_us: timestamp, is_keyframe });
            }
        }
        *self = FrameReassembler {
            newest_seen_id: newest,
            current_frame_id: Some(vh.frame_id),
            fragments,
            received_count: received,
            current_is_keyframe: is_keyframe,
            current_timestamp: timestamp,
        };
        out
    }
}

/// A frame is handed out only once all of its fragment slots are filled, and
/// its data is the fragments joined in index order.
pub proof fn lemma_emitted_frame_complete(s: ReassemblyView, d: Seq<u8>)
    requires
        s.received_count == count_received(s.fragments),
        reassembly_step(s, d).1 is Some,
    ensures
        ({
            let s2 = reassembly_step(s, d).0;
            &&& forall|i: int| 0 <= i < s2.fragments.len() ==> (#[trigger] s2.fragments[i]) is Some
            &&& reassembly_step(s, d).1 == Some(
                VideoGuiMessageView::Frame {
                    data: join_fragments(s2.fragments),
                    timestamp_us: s2.timestamp_us,
                    is_keyframe: s2.is_keyframe,
                },
            )
        }),
{
    let (vh, payload) = video_datagram_spec(d)->Some_0;
    let s2 = reassembly_step(s, d).0;
    let idx = vh.fragment_idx as int;
    if s.current_frame_id != Some(vh.frame_id) {
        lemma_count_received_empty(vh.fragment_count as nat);
    }
    let s1_frags = if s.current_frame_id == Some(vh.frame_id) {
        s.fragments
    } else {
        Seq::new(vh.fragment_count as nat, |i: int| None::<Seq<u8>>)
    };
    lemma_count_received_fill(s1_frags, idx, payload);
    lemma_count_received_bounds(s2.fragments);
}

/// Once a frame has been handed out, further datagrams of the same frame
/// hand out nothing: each frame is delivered at most once.
pub proof fn lemma_frame_delivered_once(s: ReassemblyView, d: Seq<u8>, d2: Seq<u8>)
    requires
        s.received_count == count_received(s.fragments),
        reassembly_step(s, d).1 is Some,
        video_datagram_spec(d2) is Some,
        video_datagram_spec(d2)->Some_0.0.frame_id == video_datagram_spec(d)->Some_0.0.frame_id,
    ensures
        reassembly_step(reassembly_step(s, d).0, d2).1 is None,
{
    lemma_emitted_frame_complete(s, d);
    let s2 = reassembly_step(s, d).0;
    let vh2 = video_datagram_spec(d2)->Some_0.0;
    let idx = vh2.fragment_idx as int;
    if idx < s2.fragments.len() {
        assert(s2.fragments[idx] is Some);
    }
}

/// The state of a reassembler that has seen no datagram.
pub open spec fn fresh_reassembly() -> ReassemblyView {
    ReassemblyView {
        newest_seen_id: 0,
        current_frame_id: None,
        fragments: Seq::empty(),
        received_count: 0,
        is_keyframe: false,
        timestamp_us: 0,
    }
}

/// A video fragment that is not stale is taken in: its frame becomes the
/// current frame, the newest frame id seen grows to it if it is newer, and
/// its payload lands in its slot, when the slot lies within a new frame's
/// fragment count or is an empty slot of the current frame.
pub proof fn lemma_fresh_fragment_fills_slot(s: ReassemblyView, d: Seq<u8>)
    requires
        video_datagram_spec(d) is Some,
        !is_stale_spec(video_datagram_spec(d)->Some_0.0.frame_id, s.newest_seen_id),
        ({
            let vh = video_datagram_spec(d)->Some_0.0;
            let idx = vh.fragment_idx as int;
            ||| s.current_frame_id != Some(vh.frame_id) && idx < vh.fragment_count
            ||| s.current_frame_id == Some(vh.frame_id) && idx < s.fragments.len() && s.fragments[idx] is None
        }),
    ensures
        ({
            let (vh, payload) = video_datagram_spec(d)->Some_0;
            let s2 = reassembly_step(s, d).0;
            &&& s2.current_frame_id == Some(vh.frame_id)
            &&& s2.newest_seen_id == if vh.frame_id > s.newest_seen_id {
                vh.frame_id
            } else {
                s.newest_seen_id
            }
            &&& (vh.fragment_idx as int) < s2.fragments.len()
            &&& s2.fragments[vh.fragment_idx as int] == Some(payload)
        }),
{
}

/// The first frame of a stream, sent as one fragment, is handed out at once
/// by a fresh reassembler with its payload, timestamp and keyframe flag,
/// unless its id lies so far behind zero that it counts as stale.
pub proof fn lemma_single_fragment_frame_delivered(d: Seq<u8>)
    requires
        video_datagram_spec(d) is Some,
        video_datagram_spec(d)->Some_0.0.fragment_count == 1,
        video_datagram_spec(d)->Some_0.0.fragment_idx == 0,
        !is_stale_spec(video_datagram_spec(d)->Some_0.0.frame_id, 0),
    ensures
        ({
            let (vh, payload) = video_datagram_spec(d)->Some_0;
            reassembly_step(fresh_reassembly(), d).1 == Some(
                VideoGuiMessageView::Frame {
                    data: payload,
                    timestamp_us: vh.timestamp_us,
                    is_keyframe: vh.is_keyframe,
                },
            )
        }),
{
    let (vh, payload) = video_datagram_spec(d)->Some_0;
    let f = Seq::new(1, |i: int| None::<Seq<u8>>).update(0, Some(payload));
    lemma_count_received_empty(1);
    lemma_count_received_fill(Seq::new(1, |i: int| None::<Seq<u8>>), 0, payload);
    assert(f.drop_last() =~= Seq::<Option<Seq<u8>>>::empty());
    assert(f.last() == Some(payload));
    assert(join_fragments(f.drop_last()) == Seq::<u8>::empty());
    assert(join_fragments(f) == Seq::<u8>::empty() + payload);
    assert(Seq::<u8>::empty() + payload =~= payload);
}

} // verus!
