//! What the server sends to the browser, one message or one fragment per datagram.
use super::codec::Codec;
use super::wire::{self, WireError};
use vstd::prelude::*;

verus! {

/// 1 byte for the number of the message, 2×3 for the place of the fragment, 1 for the
/// keyframe flag and 1 for the codec.
pub const HEADER: usize = 9;

/// 1 byte for the number of the message, 2×3 for the place of the fragment, 1 for the
/// channels, 4 for the rate and 1 for the format.
pub const AUDIO_HEADER: usize = 13;

/// The most payload that an audio datagram carries: a WebTransport datagram of 1200 bytes
/// without the header of an audio frame.
pub const MAX_AUDIO_DATAGRAM_PAYLOAD: usize = 1187;

/// The format of the bytes that an audio frame carries.
#[derive(Debug, Clone, Copy, PartialEq, Eq, Structural)]
pub enum AudioFormat {
    /// One Opus packet (RFC 6716), always at 48 kHz.
    Opus,
}

/// The audio format that a byte stands for.
pub open spec fn byte_audio_format(b: u8) -> Option<AudioFormat> {
    if b == 0 {
        Some(AudioFormat::Opus)
    } else {
        None
    }
}

/// The byte of an audio format.
pub open spec fn audio_format_byte(format: AudioFormat) -> u8 {
    match format {
        AudioFormat::Opus => 0,
    }
}

impl AudioFormat {
    /// The audio format that a byte stands for.
    pub fn from_byte(b: u8) -> (r: Result<AudioFormat, WireError>)
        ensures
            r == (match byte_audio_format(b) {
                Some(format) => Ok::<AudioFormat, WireError>(format),
                None => Err(WireError::AudioFormat(b)),
            }),
    {
        match b {
            0 => Ok(AudioFormat::Opus),
            d => Err(WireError::AudioFormat(d)),
        }
    }

    /// The byte that stands for the format.
    pub fn to_byte(self) -> (b: u8)
        ensures
            b == audio_format_byte(self),
    {
        match self {
            AudioFormat::Opus => 0,
        }
    }
}

/// A message from the server.
#[derive(Debug, Clone, PartialEq, Eq)]
pub enum ServerDatagram {
    /// One fragment of an encoded video frame.
    VideoFrame {
        frame_id: u16,
        frag_idx: u16,
        num_frags: u16,
        is_keyframe: bool,
        codec: Codec,
        payload: Vec<u8>,
    },
    /// The browser should let go of the mouse.
    ReleaseMouse,
    /// The browser should enter or leave fullscreen.
    ToggleFullscreen,
    /// One fragment of an audio packet.
    AudioFrame {
        frame_id: u16,
        frag_idx: u16,
        num_frags: u16,
        channels: u8,
        rate: u32,
        format: AudioFormat,
        payload: Vec<u8>,
    },
}

/// What a message says.
#[verifier::ext_equal]
pub ghost enum ServerMessage {
    VideoFrame {
        frame_id: u16,
        frag_idx: u16,
        num_frags: u16,
        is_keyframe: bool,
        codec: Codec,
        payload: Seq<u8>,
    },
    ReleaseMouse,
    ToggleFullscreen,
    AudioFrame {
        frame_id: u16,
        frag_idx: u16,
        num_frags: u16,
        channels: u8,
        rate: u32,
        format: AudioFormat,
        payload: Seq<u8>,
    },
}

impl View for ServerDatagram {
    type V = ServerMessage;

    open spec fn view(&self) -> ServerMessage {
        match *self {
            ServerDatagram::VideoFrame {
                frame_id,
                frag_idx,
                num_frags,
                is_keyframe,
                codec,
                payload,
            } => ServerMessage::VideoFrame {
                frame_id,
                frag_idx,
                num_frags,
                is_keyframe,
                codec,
                payload: payload@,
            },
            ServerDatagram::ReleaseMouse => ServerMessage::ReleaseMouse,
            ServerDatagram::ToggleFullscreen => ServerMessage::ToggleFullscreen,
            ServerDatagram::AudioFrame {
                frame_id,
                frag_idx,
                num_frags,
                channels,
                rate,
                format,
                payload,
            } => ServerMessage::AudioFrame {
                frame_id,
                frag_idx,
                num_frags,
                channels,
                rate,
                format,
                payload: payload@,
            },
        }
    }
}

/// The bytes of a message: its number, then its fields, then the payload.
pub open spec fn server_bytes(m: ServerMessage) -> Seq<u8> {
    match m {
        ServerMessage::VideoFrame {
            frame_id,
            frag_idx,
            num_frags,
            is_keyframe,
            codec,
            payload,
        } => seq![0u8] + wire::be16(frame_id) + wire::be16(frag_idx) + wire::be16(num_frags) + seq![
            if is_keyframe { 1u8 } else { 0u8 },
            super::codec::codec_byte(codec),
        ] + payload,
        ServerMessage::ReleaseMouse => seq![1u8],
        ServerMessage::ToggleFullscreen => seq![2u8],
        ServerMessage::AudioFrame {
            frame_id,
            frag_idx,
            num_frags,
            channels,
            rate,
            format,
            payload,
        } => seq![3u8] + wire::be16(frame_id) + wire::be16(frag_idx) + wire::be16(num_frags) + seq![
            channels,
        ] + wire::be32(rate) + seq![audio_format_byte(format)] + payload,
    }
}

/// The message that bytes hold.
pub open spec fn server_message(bytes: Seq<u8>) -> Result<ServerMessage, WireError> {
    if bytes.len() == 0 {
        Err(WireError::EmptyDatagram)
    } else if bytes[0] == 0 {
        if bytes.len() < HEADER {
            Err(WireError::VideoFrameTooShort(bytes.len() as usize))
        } else {
            match super::codec::byte_codec(bytes[8]) {
                None => Err(WireError::Codec(bytes[8])),
                Some(codec) => Ok(
                    ServerMessage::VideoFrame {
                        frame_id: wire::at16(bytes, 1),
                        frag_idx: wire::at16(bytes, 3),
                        num_frags: wire::at16(bytes, 5),
                        is_keyframe: bytes[7] % 2 == 1,
                        codec,
                        payload: bytes.skip(9),
                    },
                ),
            }
        }
    } else if bytes[0] == 1 {
        Ok(ServerMessage::ReleaseMouse)
    } else if bytes[0] == 2 {
        Ok(ServerMessage::ToggleFullscreen)
    } else if bytes[0] == 3 {
        if bytes.len() < AUDIO_HEADER {
            Err(WireError::AudioFrameTooShort(bytes.len() as usize))
        } else {
            match byte_audio_format(bytes[12]) {
                None => Err(WireError::AudioFormat(bytes[12])),
                Some(format) => Ok(
                    ServerMessage::AudioFrame {
                        frame_id: wire::at16(bytes, 1),
                        frag_idx: wire::at16(bytes, 3),
                        num_frags: wire::at16(bytes, 5),
                        channels: bytes[7],
                        rate: wire::at32(bytes, 8),
                        format,
                        payload: bytes.skip(13),
                    },
                ),
            }
        }
    } else {
        Err(WireError::ServerDiscriminant(bytes[0]))
    }
}

impl ServerDatagram {
    /// The bytes of one video fragment, straight from a slice of the encoded frame.
    pub fn video_frame_to_bytes(
        frame_id: u16,
        frag_idx: u16,
        num_frags: u16,
        is_keyframe: bool,
        codec: Codec,
        payload: &[u8],
    ) -> (r: Vec<u8>)
        ensures
            r@ == server_bytes(
                (ServerMessage::VideoFrame {
                    frame_id,
                    frag_idx,
                    num_frags,
                    is_keyframe,
                    codec,
                    payload: payload@,
                }),
            ),
    {
        let mut buf: Vec<u8> = Vec::new();
        buf.push(0);
        wire::push_be16(&mut buf, frame_id);
        wire::push_be16(&mut buf, frag_idx);
        wire::push_be16(&mut buf, num_frags);
        buf.push(if is_keyframe { 1 } else { 0 });
        buf.push(codec.to_byte());
        wire::push_bytes(&mut buf, payload);
        assert(buf@ =~= server_bytes(
            ServerMessage::VideoFrame {
                frame_id,
                frag_idx,
                num_frags,
                is_keyframe,
                codec,
                payload: payload@,
            },
        ));
        buf
    }

    /// The bytes of the message.
    pub fn to_bytes(&self) -> (r: Vec<u8>)
        ensures
            r@ == server_bytes(self@),
    {
        let mut buf: Vec<u8> = Vec::new();
        match self {
            ServerDatagram::VideoFrame {
                frame_id,
                frag_idx,
                num_frags,
                is_keyframe,
                codec,
                payload,
            } => {
                buf = Self::video_frame_to_bytes(
                    *frame_id,
                    *frag_idx,
                    *num_frags,
                    *is_keyframe,
                    *codec,
                    payload.as_slice(),
                );
            },
            ServerDatagram::ReleaseMouse => {
                buf.push(1);
            },
            ServerDatagram::ToggleFullscreen => {
                buf.push(2);
            },
            ServerDatagram::AudioFrame {
                frame_id,
                frag_idx,
                num_frags,
                channels,
                rate,
                format,
                payload,
            } => {
                buf.push(3);
                wire::push_be16(&mut buf, *frame_id);
                wire::push_be16(&mut buf, *frag_idx);
                wire::push_be16(&mut buf, *num_frags);
                buf.push(*channels);
                wire::push_be32(&mut buf, *rate);
                buf.push(format.to_byte());
                wire::push_bytes(&mut buf, payload.as_slice());
            },
        }
        assert(buf@ =~= server_bytes(self@));
        buf
    }

    /// The message that the bytes hold.
    pub fn from_bytes(bytes: &[u8]) -> (r: Result<ServerDatagram, WireError>)
        ensures
            match r {
                Ok(d) => server_message(bytes@) == Ok::<ServerMessage, WireError>(d@),
                Err(e) => server_message(bytes@) == Err::<ServerMessage, WireError>(e),
            },
    {
        let n = bytes.len();
        if n == 0 {
            return Err(WireError::EmptyDatagram);
        }
        match bytes[0] {
            0 => {
                if n < HEADER {
                    return Err(WireError::VideoFrameTooShort(n));
                }
                let codec = match Codec::from_byte(bytes[8]) {
                    Ok(codec) => codec,
                    Err(e) => {
                        return Err(e);
                    },
                };
                let payload = vstd::slice::slice_to_vec(
                    vstd::slice::slice_subrange(bytes, HEADER, n),
                );
                assert(payload@ =~= bytes@.skip(9));
                Ok(
                    ServerDatagram::VideoFrame {
                        frame_id: wire::read_be16(bytes, 1),
                        frag_idx: wire::read_be16(bytes, 3),
                        num_frags: wire::read_be16(bytes, 5),
                        is_keyframe: bytes[7] % 2 == 1,
                        codec,
                        payload,
                    },
                )
            },
            1 => Ok(ServerDatagram::ReleaseMouse),
            2 => Ok(ServerDatagram::ToggleFullscreen),
            3 => {
                if n < AUDIO_HEADER {
                    return Err(WireError::AudioFrameTooShort(n));
                }
                let format = match AudioFormat::from_byte(bytes[12]) {
                    Ok(format) => format,
                    Err(e) => {
                        return Err(e);
                    },
                };
                let payload = vstd::slice::slice_to_vec(
                    vstd::slice::slice_subrange(bytes, AUDIO_HEADER, n),
                );
                assert(payload@ =~= bytes@.skip(13));
                Ok(
                    ServerDatagram::AudioFrame {
                        frame_id: wire::read_be16(bytes, 1),
                        frag_idx: wire::read_be16(bytes, 3),
                        num_frags: wire::read_be16(bytes, 5),
                        channels: bytes[7],
                        rate: wire::read_be32(bytes, 8),
                        format,
                        payload,
                    },
                )
            },
            tag => Err(WireError::ServerDiscriminant(tag)),
        }
    }

    /// The size of the header of a video fragment.
    pub fn header_size() -> (n: usize)
        ensures
            n == HEADER,
    {
        HEADER
    }
}

/// The most payload that a video fragment can carry in a datagram of this size; at least
/// one byte.
pub open spec fn payload_limit(max_datagram_size: nat) -> nat {
    if max_datagram_size > HEADER + 1 {
        (max_datagram_size - HEADER) as nat
    } else {
        1
    }
}

/// The most payload that a video fragment can carry in a datagram of this size.
pub fn max_payload_size(max_datagram_size: usize) -> (n: usize)
    ensures
        n == payload_limit(max_datagram_size as nat),
{
    let room: usize = max_datagram_size.saturating_sub(HEADER);
    if room > 1 {
        room
    } else {
        1
    }
}

/// A message arrives as it was sent.
pub proof fn server_message_arrives(m: ServerMessage)
    ensures
        server_message(server_bytes(m)) == Ok::<ServerMessage, WireError>(m),
{
    let b = server_bytes(m);
    match m {
        ServerMessage::VideoFrame {
            frame_id,
            frag_idx,
            num_frags,
            is_keyframe,
            codec,
            payload,
        } => {
            assert(b.subrange(1, 3) =~= wire::be16(frame_id));
            assert(b.subrange(3, 5) =~= wire::be16(frag_idx));
            assert(b.subrange(5, 7) =~= wire::be16(num_frags));
            wire::be16_reads_back(b, 1, frame_id);
            wire::be16_reads_back(b, 3, frag_idx);
            wire::be16_reads_back(b, 5, num_frags);
            super::codec::codec_byte_reads_back(codec, 0);
            assert(b.skip(9) =~= payload);
        },
        ServerMessage::AudioFrame {
            frame_id,
            frag_idx,
            num_frags,
            channels,
            rate,
            format,
            payload,
        } => {
            assert(b.subrange(1, 3) =~= wire::be16(frame_id));
            assert(b.subrange(3, 5) =~= wire::be16(frag_idx));
            assert(b.subrange(5, 7) =~= wire::be16(num_frags));
            assert(b.subrange(8, 12) =~= wire::be32(rate));
            wire::be16_reads_back(b, 1, frame_id);
            wire::be16_reads_back(b, 3, frag_idx);
            wire::be16_reads_back(b, 5, num_frags);
            wire::be32_reads_back(b, 8, rate);
            assert(b.skip(13) =~= payload);
        },
        _ => {},
    }
}

/// A video fragment whose payload keeps to the limit fits the datagram, and an audio
/// fragment that keeps to its own limit fits one of 1200 bytes.
pub proof fn fragments_fit_their_datagrams(m: ServerMessage, max_datagram_size: nat)
    requires
        max_datagram_size > HEADER,
    ensures
        m matches ServerMessage::VideoFrame { payload, .. } ==> payload.len() <= payload_limit(
            max_datagram_size,
        ) ==> server_bytes(m).len() <= max_datagram_size,
        m matches ServerMessage::AudioFrame { payload, .. } ==> payload.len()
            <= MAX_AUDIO_DATAGRAM_PAYLOAD ==> server_bytes(m).len() <= 1200,
{
}

/// The bytes of a message, one by one: its kind is the first, numbers have their high byte
/// first, and the payload runs to the end.
pub proof fn server_messages_are_laid_out(m: ServerMessage)
    ensures
        ({
            let b = server_bytes(m);
            match m {
                ServerMessage::VideoFrame {
                    frame_id,
                    frag_idx,
                    num_frags,
                    is_keyframe,
                    codec,
                    payload,
                } => b.len() == 9 + payload.len() && b[0] == 0 && 256 * b[1] + b[2] == frame_id
                    && 256 * b[3] + b[4] == frag_idx && 256 * b[5] + b[6] == num_frags && b[7] == (
                if is_keyframe { 1int } else { 0 }) && b[8] == super::codec::codec_byte(codec)
                    && b.skip(9) == payload,
                ServerMessage::ReleaseMouse => b.len() == 1 && b[0] == 1,
                ServerMessage::ToggleFullscreen => b.len() == 1 && b[0] == 2,
                ServerMessage::AudioFrame {
                    frame_id,
                    frag_idx,
                    num_frags,
                    channels,
                    rate,
                    format,
                    payload,
                } => b.len() == 13 + payload.len() && b[0] == 3 && 256 * b[1] + b[2] == frame_id
                    && 256 * b[3] + b[4] == frag_idx && 256 * b[5] + b[6] == num_frags && b[7]
                    == channels && 16777216 * b[8] + 65536 * b[9] + 256 * b[10] + b[11] == rate
                    && b[12] == 0 && b.skip(13) == payload,
            }
        }),
{
    let b = server_bytes(m);
    match m {
        ServerMessage::VideoFrame { payload, .. } => {
            assert(b.skip(9) =~= payload);
        },
        ServerMessage::AudioFrame { rate, payload, .. } => {
            assert(b.skip(13) =~= payload);
            wire::high_byte_comes_first_in_four(rate);
            let p = wire::be32(rate);
            assert(b[8] == p[0] && b[9] == p[1] && b[10] == p[2] && b[11] == p[3]);
        },
        _ => {},
    }
}

/// What the bytes of a datagram mean, whoever sent them: which errors there are, and off which
/// bytes each field is read.
pub proof fn server_bytes_are_read_by_place(b: Seq<u8>)
    requires
        b.len() <= usize::MAX,
    ensures
        match server_message(b) {
            Err(WireError::EmptyDatagram) => b.len() == 0,
            Err(WireError::VideoFrameTooShort(n)) => b[0] == 0 && n == b.len() && 1 <= n <= 8,
            Err(WireError::AudioFrameTooShort(n)) => b[0] == 3 && n == b.len() && 1 <= n <= 12,
            Err(WireError::Codec(c)) => b[0] == 0 && b.len() >= 9 && c == b[8] && c >= 4,
            Err(WireError::AudioFormat(f)) => b[0] == 3 && b.len() >= 13 && f == b[12] && f >= 1,
            Err(WireError::ServerDiscriminant(t)) => b.len() >= 1 && t == b[0] && t >= 4,
            Err(_) => false,
            Ok(ServerMessage::ReleaseMouse) => b.len() >= 1 && b[0] == 1,
            Ok(ServerMessage::ToggleFullscreen) => b.len() >= 1 && b[0] == 2,
            Ok(
                ServerMessage::VideoFrame {
                    frame_id,
                    frag_idx,
                    num_frags,
                    is_keyframe,
                    codec,
                    payload,
                },
            ) => b.len() >= 9 && b[0] == 0 && frame_id == 256 * b[1] + b[2] && frag_idx == 256
                * b[3] + b[4] && num_frags == 256 * b[5] + b[6] && (is_keyframe <==> b[7] % 2 == 1)
                && super::codec::codec_byte(codec) == b[8] && payload == b.skip(9),
            Ok(
                ServerMessage::AudioFrame {
                    frame_id,
                    frag_idx,
                    num_frags,
                    channels,
                    rate,
                    format,
                    payload,
                },
            ) => b.len() >= 13 && b[0] == 3 && frame_id == 256 * b[1] + b[2] && frag_idx == 256
                * b[3] + b[4] && num_frags == 256 * b[5] + b[6] && channels == b[7] && rate
                == 16777216 * b[8] + 65536 * b[9] + 256 * b[10] + b[11] && b[12] == 0 && payload
                == b.skip(13),
        },
{
}

/// A video fragment has room for what a datagram holds beyond the nine bytes of its header, and
/// for one byte in any case.
pub proof fn headers_take_nine_bytes(n: nat)
    ensures
        n >= 10 ==> payload_limit(n) + 9 == n,
        n < 10 ==> payload_limit(n) == 1,
{
}

} // verus!
