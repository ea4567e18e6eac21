//! Video in the browser: the sizes that are asked for, and the frames that are decoded.
use super::assembly::FrameAssembler;
use crate::shared::client_datagram::{ClientDatagram, ClientMessage};
use crate::shared::codec::Codec;
use crate::shared::server_datagram::ServerDatagram;
use vstd::prelude::*;

verus! {

// ----- sizes

/// How long after a size was sent the next one is held back, in microseconds.
pub const RESIZE_COOLDOWN_US: u64 = 2_000_000;

/// When a size was sent last, in microseconds.
pub struct ResizePrompt {
    pub last_sent: Option<u64>,
}

/// Whether a size that is seen at a time is sent, if one was sent at `last`: the first one at
/// once, the next ones only when the time to hold them back is over.
pub open spec fn resize_due(last: Option<u64>, now_us: u64) -> bool {
    last matches Some(at) ==> now_us - at >= RESIZE_COOLDOWN_US
}

impl ResizePrompt {
    /// No size was sent.
    pub fn new() -> (p: ResizePrompt)
        ensures
            p.last_sent is None,
    {
        ResizePrompt { last_sent: None }
    }

    /// The size changed; says whether to send it.
    pub fn step(&mut self, now_us: u64) -> (send: bool)
        ensures
            send == resize_due(old(self).last_sent, now_us),
            final(self).last_sent == (if send {
                Some(now_us)
            } else {
                old(self).last_sent
            }),
    {
        if let Some(at) = self.last_sent {
            if now_us < at || now_us - at < RESIZE_COOLDOWN_US {
                return false;
            }
        }
        self.last_sent = Some(now_us);
        true
    }
}

/// The times at which sizes are sent that change at these times.
pub open spec fn sizes_sent(times: Seq<u64>) -> Seq<u64>
    decreases times.len(),
{
    if times.len() == 0 {
        Seq::empty()
    } else {
        let before = sizes_sent(times.drop_last());
        let last = if before.len() == 0 {
            None
        } else {
            Some(before.last())
        };
        if resize_due(last, times.last()) {
            before.push(times.last())
        } else {
            before
        }
    }
}

/// The first change of the size is sent, and after one that is sent none is for two seconds.
pub proof fn sizes_are_sent_apart(times: Seq<u64>)
    ensures
        times.len() > 0 ==> sizes_sent(times).len() > 0 && sizes_sent(times)[0] == times[0],
        forall|i: int, j: int|
            0 <= i < j < sizes_sent(times).len() ==> #[trigger] sizes_sent(times)[j]
                - #[trigger] sizes_sent(times)[i] >= RESIZE_COOLDOWN_US,
    decreases times.len(),
{
    if times.len() > 0 {
        let before = sizes_sent(times.drop_last());
        sizes_are_sent_apart(times.drop_last());
        if times.len() == 1 {
            assert(times.drop_last() =~= Seq::<u64>::empty());
        } else {
            assert(times.drop_last()[0] == times[0]);
        }
        let sent = sizes_sent(times);
        assert forall|i: int, j: int| 0 <= i < j < sent.len() implies #[trigger] sent[j]
            - #[trigger] sent[i] >= RESIZE_COOLDOWN_US by {
            if j < before.len() {
                assert(before[j] == sent[j] && before[i] == sent[i]);
            } else {
                assert(before[i] == sent[i]);
                if i < before.len() - 1 {
                    assert(before[before.len() - 1] - before[i] >= RESIZE_COOLDOWN_US);
                }
            }
        }
    }
}

/// The message that asks for a size of the first display.
pub fn resize_message(width: u16, height: u16) -> (d: ClientDatagram)
    ensures
        d@ == (ClientMessage::ResizeDisplay { index: 0, width, height }),
{
    ClientDatagram::ResizeDisplay { index: 0, width, height }
}

/// The larger of the 16 low bits of the document's extent and the window's extent.
pub open spec fn larger_extent(client: i32, inner: u16) -> int {
    let low = client % 65536;
    if low >= inner {
        low as int
    } else {
        inner as int
    }
}

fn larger(client: i32, inner: u16) -> (r: u16)
    ensures
        r == larger_extent(client, inner),
{
    let low: u16 = ((client as i64 + 0x1_0000_0000) % 65536) as u16;
    if low >= inner {
        low
    } else {
        inner
    }
}

/// Whether the extent to ask for in fullscreen can be told.
pub fn fullscreen_fits(client: i32, inner: u16, pixel_ratio: u16) -> (r: bool)
    ensures
        r == (larger_extent(client, inner) * pixel_ratio <= u16::MAX),
{
    let extent: u16 = larger(client, inner);
    assert(extent * pixel_ratio <= 65535 * 65535) by (nonlinear_arith)
        requires
            extent <= 65535,
            pixel_ratio <= 65535,
    ;
    extent as u32 * pixel_ratio as u32 <= 65535
}

/// The extent to ask for in fullscreen: the larger of the document's and the window's, in
/// device pixels.
pub fn fullscreen_extent(client: i32, inner: u16, pixel_ratio: u16) -> (r: u16)
    requires
        larger_extent(client, inner) * pixel_ratio <= u16::MAX,
    ensures
        r == larger_extent(client, inner) * pixel_ratio,
{
    larger(client, inner) * pixel_ratio
}

// ----- frames

/// A chunk for the video decoder.
pub struct VideoChunk {
    pub is_keyframe: bool,
    /// In microseconds.
    pub timestamp: u64,
    pub data: Vec<u8>,
}

/// The timestamp of a frame, in microseconds: a millisecond for each frame number.
pub open spec fn frame_timestamp(frame_id: u16) -> u64 {
    (frame_id * 1000) as u64
}

/// Receives video.
pub struct VideoReceiver {
    pub assembler: FrameAssembler,
}

impl VideoReceiver {
    /// Nothing has arrived yet.
    pub fn new() -> (r: VideoReceiver)
        ensures
            r.assembler@ == Map::<u16, super::assembly::Partial>::empty(),
    {
        VideoReceiver { assembler: FrameAssembler::new() }
    }

    /// Whether a message is no video fragment, or one that has a place in its frame.
    pub open spec fn takes(self, d: ServerDatagram) -> bool {
        d matches ServerDatagram::VideoFrame { frame_id, frag_idx, num_frags, .. } ==> frag_idx
            < super::assembly::pending_of(
            self.assembler@,
            frame_id,
            num_frags,
        ).fragments.len()
    }

    /// Whether a message is no video fragment, or one that has a place in its frame.
    pub fn accepts(&self, d: &ServerDatagram) -> (r: bool)
        ensures
            r == self.takes(*d),
    {
        match d {
            ServerDatagram::VideoFrame { frame_id, frag_idx, num_frags, .. } => {
                self.assembler.has_place(*frame_id, *frag_idx, *num_frags)
            },
            _ => true,
        }
    }

    /// A message of the server arrives; returns the chunk to decode where it completes a
    /// frame.
    pub fn on_datagram(&mut self, d: ServerDatagram) -> (r: Option<VideoChunk>)
        requires
            old(self).takes(d),
        ensures
            final(self).assembler@ == super::assembly::video_arrives(old(self).assembler@, d@).0,
            match r {
                Some(chunk) => {
                    &&& super::assembly::video_arrives(old(self).assembler@, d@).1 == Some(
                        (chunk.is_keyframe, chunk.data@),
                    )
                    &&& d matches ServerDatagram::VideoFrame { frame_id, .. } && chunk.timestamp
                        == frame_timestamp(frame_id)
                },
                None => super::assembly::video_arrives(old(self).assembler@, d@).1 is None,
            },
    {
        match d {
            ServerDatagram::VideoFrame {
                frame_id,
                frag_idx,
                num_frags,
                is_keyframe,
                codec: _,
                payload,
            } => {
                match self.assembler.push(frame_id, frag_idx, num_frags, is_keyframe, payload) {
                    Some(frame) => Some(
                        VideoChunk {
                            is_keyframe: frame.is_keyframe,
                            timestamp: frame_id as u64 * 1000,
                            data: frame.data,
                        },
                    ),
                    None => None,
                }
            },
            _ => None,
        }
    }
}

/// The codec that the decoder is set up for.
pub struct DecoderSetup {
    pub codec: Option<Codec>,
}

impl DecoderSetup {
    /// It is not set up yet.
    pub fn new() -> (s: DecoderSetup)
        ensures
            s.codec is None,
    {
        DecoderSetup { codec: None }
    }

    /// A message of the server arrives; says for which codec to set the decoder up before, if
    /// it is video in another codec than so far.
    pub fn on_datagram(&mut self, d: &ServerDatagram) -> (r: Option<Codec>)
        ensures
            match *d {
                ServerDatagram::VideoFrame { codec, .. } => final(self).codec == Some(codec) && r
                    == (if old(self).codec == Some(codec) {
                    None
                } else {
                    Some(codec)
                }),
                _ => r is None && final(self).codec == old(self).codec,
            },
    {
        match d {
            ServerDatagram::VideoFrame { codec, .. } => {
                if let Some(current) = self.codec {
                    if current == *codec {
                        return None;
                    }
                }
                self.codec = Some(*codec);
                Some(*codec)
            },
            _ => None,
        }
    }
}

/// A size is sent first whenever it is, and then only two seconds after the last one at the
/// earliest.
pub proof fn sizes_wait_two_seconds(at: u64, now_us: u64)
    ensures
        resize_due(None, now_us),
        resize_due(Some(at), now_us) <==> at + 2_000_000 <= now_us,
{
}

/// No size is held back for longer than that: each one that is not sent follows one that was
/// within two seconds.
pub proof fn sizes_are_held_back_briefly(times: Seq<u64>, now_us: u64)
    ensures
        sizes_sent(times.push(now_us)) == sizes_sent(times).push(now_us) || (sizes_sent(
            times.push(now_us),
        ) == sizes_sent(times) && sizes_sent(times).len() > 0 && now_us < sizes_sent(times).last()
            + 2_000_000),
{
    assert(times.push(now_us).drop_last() =~= times);
}

/// The larger of both extents is taken, the first one in 16 bits.
pub proof fn the_larger_extent_is_taken(client: i32, inner: u16)
    ensures
        larger_extent(client, inner) >= inner,
        larger_extent(client, inner) == inner || (larger_extent(client, inner) - client) % 65536
            == 0,
        0 <= client <= 65535 ==> larger_extent(client, inner) >= client,
        0 <= larger_extent(client, inner) <= 65535,
        0 <= client <= inner ==> larger_extent(client, inner) == inner,
        inner <= client <= 65535 ==> larger_extent(client, inner) == client,
{
}

/// A frame's time is a millisecond, in microseconds, for each number.
pub proof fn frames_are_a_millisecond_apart(a: u16, b: u16)
    ensures
        frame_timestamp(0) == 0,
        frame_timestamp(b) - frame_timestamp(a) == 1000 * (b - a),
{
}

} // verus!
