//! The video datagram without a codec byte.
use crate::shared::wire;
use vstd::prelude::*;

verus! {

/// A message from the server, borrowing its payload.
#[derive(Debug, Clone, Copy)]
pub enum ServerDatagram<'a> {
    /// One fragment of an encoded video frame.
    VideoFrame {
        frame_id: u16,
        frag_idx: u16,
        num_frags: u16,
        is_keyframe: bool,
        payload: &'a [u8],
    },
}

/// The bytes of a video fragment.
pub open spec fn fragment_bytes(
    frame_id: u16,
    frag_idx: u16,
    num_frags: u16,
    is_keyframe: bool,
    payload: Seq<u8>,
) -> Seq<u8> {
    seq![0u8] + wire::be16(frame_id) + wire::be16(frag_idx) + wire::be16(num_frags) + seq![
        if is_keyframe { 1u8 } else { 0u8 },
    ] + payload
}

impl<'a> ServerDatagram<'a> {
    /// 1 byte for the number of the message, 2 each for the frame, the fragment and the
    /// number of fragments, and 1 for the flags.
    pub const HEADER: usize = 8;

    /// The bytes of the message.
    pub fn to_bytes(&self) -> (r: Vec<u8>)
        ensures
            match *self {
                ServerDatagram::VideoFrame {
                    frame_id,
                    frag_idx,
                    num_frags,
                    is_keyframe,
                    payload,
                } => {
                    &&& r@ == fragment_bytes(frame_id, frag_idx, num_frags, is_keyframe, payload@)
                    &&& r@.len() == Self::HEADER + payload@.len()
                },
            },
    {
        match self {
            ServerDatagram::VideoFrame {
                frame_id,
                frag_idx,
                num_frags,
                is_keyframe,
                payload,
            } => {
                let mut buf: Vec<u8> = Vec::new();
                buf.push(0);
                wire::push_be16(&mut buf, *frame_id);
                wire::push_be16(&mut buf, *frag_idx);
                wire::push_be16(&mut buf, *num_frags);
                buf.push(if *is_keyframe { 1 } else { 0 });
                wire::push_bytes(&mut buf, payload);
                assert(buf@ =~= fragment_bytes(
                    *frame_id,
                    *frag_idx,
                    *num_frags,
                    *is_keyframe,
                    payload@,
                ));
                buf
            },
        }
    }
}

/// The bytes of a fragment, one by one: a kind of 0, three numbers with their high byte first,
/// whether it is of a key frame, and the payload.
pub proof fn fragments_are_laid_out(
    frame_id: u16,
    frag_idx: u16,
    num_frags: u16,
    is_keyframe: bool,
    payload: Seq<u8>,
)
    ensures
        ({
            let b = fragment_bytes(frame_id, frag_idx, num_frags, is_keyframe, payload);
            &&& b.len() == 8 + payload.len()
            &&& b[0] == 0
            &&& 256 * b[1] + b[2] == frame_id
            &&& 256 * b[3] + b[4] == frag_idx
            &&& 256 * b[5] + b[6] == num_frags
            &&& b[7] == if is_keyframe { 1int } else { 0 }
            &&& b.skip(8) == payload
        }),
{
    let b = fragment_bytes(frame_id, frag_idx, num_frags, is_keyframe, payload);
    assert(b.skip(8) =~= payload);
}

} // verus!
