//! The WebTransport session: the token of a request, the messages of the client, and the
//! way of encoded frames into datagrams.
use crate::shared::client_datagram::ClientDatagram;
use crate::shared::codec::Codec;
use crate::shared::fragments;
use crate::shared::server_datagram::{max_payload_size, ServerDatagram, ServerMessage};
use crate::text;
use vstd::prelude::*;

verus! {

/// How long the server waits for a datagram, in milliseconds. The client sends a sign of
/// life every 50 ms: some ten of them are missing before it counts as gone.
pub const KEEPALIVE_TIMEOUT_MS: u64 = 500;

/// The size of a datagram where the connection names none.
pub const DEFAULT_DATAGRAM_SIZE: usize = 1200;

// ----- authentication

/// The value of the first of some parameters that is named `key`. Parameters without an
/// equals sign are passed over.
pub open spec fn parameter(params: Seq<Seq<char>>, key: Seq<char>) -> Option<Seq<char>>
    decreases params.len(),
{
    if params.len() == 0 {
        None
    } else {
        match text::cut(params[0], '=') {
            Some((k, v)) => if k == key {
                Some(v)
            } else {
                parameter(params.drop_first(), key)
            },
            None => parameter(params.drop_first(), key),
        }
    }
}

/// The token in the query of a request's path.
pub open spec fn path_token(path: Seq<char>) -> Option<Seq<char>> {
    match text::cut(path, '?') {
        Some((_, query)) => parameter(text::pieces(query, '&'), "token"@),
        None => None,
    }
}

/// The value of the first of some parameters that is named `key`.
pub fn find_parameter(params: &Vec<String>, key: &str) -> (r: Option<String>)
    ensures
        r is Some == parameter(text::views(params@), key@) is Some,
        r matches Some(value) ==> parameter(text::views(params@), key@) == Some(value@),
{
    let ghost all = text::views(params@);
    let mut i: usize = 0;
    assert(all.skip(0) =~= all);
    while i < params.len()
        invariant
            i <= params.len(),
            all == text::views(params@),
            parameter(all, key@) == parameter(all.skip(i as int), key@),
        decreases params.len() - i,
    {
        let ghost rest = all.skip(i as int);
        assert(rest[0] == params@[i as int]@);
        assert(rest.drop_first() =~= all.skip(i + 1));
        if let Some((name, value)) = text::split_once(params[i].as_str(), '=') {
            if text::str_eq(name, key) {
                return Some(value.to_owned());
            }
        }
        i += 1;
    }
    None
}

/// The token in the query of a request's path.
pub fn token_from_path(path: &str) -> (r: Option<String>)
    ensures
        r is Some == path_token(path@) is Some,
        r matches Some(token) ==> path_token(path@) == Some(token@),
{
    match text::split_once(path, '?') {
        Some((_, query)) => {
            let params = text::split(query, '&');
            find_parameter(&params, "token")
        },
        None => None,
    }
}

// ----- names

/// The name of a session, under which its resources are known: that of its user, and its number.
pub fn session_name(display_name: &str, id: u64) -> (s: String)
    ensures
        s@ == "webshooter-"@ + display_name@ + "-"@ + text::decimal(id as nat),
{
    let mut s = "webshooter-".to_owned();
    s.append(display_name);
    s.append("-");
    text::push_decimal(&mut s, id);
    s
}

/// The name tells the user and the number of a session.
pub proof fn session_names_are_distinct(a: Seq<char>, m: u64, b: Seq<char>, n: u64)
    requires
        "webshooter-"@ + a + "-"@ + text::decimal(m as nat) == "webshooter-"@ + b + "-"@
            + text::decimal(n as nat),
    ensures
        a == b,
        m == n,
{
    let p = text::decimal(m as nat);
    let q = text::decimal(n as nat);
    let x = "webshooter-"@ + a + "-"@ + p;
    reveal_strlit("webshooter-");
    reveal_strlit("-");
    text::decimal_digits(m as nat);
    text::decimal_digits(n as nat);
    let k = 11 + a.len();
    let l = 11 + b.len();
    let y = "webshooter-"@ + b + "-"@ + q;
    assert(x.len() == k + 1 + p.len() && x.len() == l + 1 + q.len());
    assert(x[k as int] == '-' && y[l as int] == '-');
    if k < l {
        assert(x[l as int] == p[l - k - 1]);
        assert(text::is_digit(p[l - k - 1]));
    }
    if l < k {
        assert(y[k as int] == q[k - l - 1]);
        assert(text::is_digit(q[k - l - 1]));
    }
    assert(a =~= x.subrange(11, k as int));
    assert(b =~= y.subrange(11, l as int));
    assert(p =~= x.skip(k as int + 1));
    assert(q =~= y.skip(l as int + 1));
    text::decimal_is_injective(m as nat, n as nat);
}

// ----- messages of the client

/// What the session keeps of its client's messages: the codecs that it decodes.
pub struct ClientEvents {
    pub decoders: Option<Vec<Codec>>,
}

/// What a session knows of its client's decoders.
pub open spec fn decoders_view(d: Option<Vec<Codec>>) -> Option<Seq<Codec>> {
    match d {
        Some(v) => Some(v@),
        None => None,
    }
}

impl ClientEvents {
    /// Nothing is known yet.
    pub fn new() -> (e: ClientEvents)
        ensures
            e.decoders is None,
    {
        ClientEvents { decoders: None }
    }

    /// A message arrived. Decoders are kept; a record of an error is returned for the log.
    pub fn on_message(&mut self, message: ClientDatagram) -> (record: Option<String>)
        ensures
            match message {
                ClientDatagram::DecoderCapabilities { decoders } => decoders_view(
                    final(self).decoders,
                ) == Some(decoders@) && record is None,
                ClientDatagram::Error { message } => record matches Some(s) && s@ == message@
                    && final(self).decoders == old(self).decoders,
                _ => record is None && final(self).decoders == old(self).decoders,
            },
    {
        match message {
            ClientDatagram::DecoderCapabilities { decoders } => {
                self.decoders = Some(decoders);
                None
            },
            ClientDatagram::Error { message } => Some(message),
            _ => None,
        }
    }
}

/// What the wait for the client's audio has to deal with.
#[derive(Debug, Clone, Copy, PartialEq, Eq, Structural)]
pub enum AudioSignal {
    /// The client's audio runs, with so many channels and at this rate.
    Ready { channels: u8, rate: u32 },
    OtherMessage,
    ClientGone,
    Cancelled,
}

/// What comes of it.
#[derive(Debug, Clone, Copy, PartialEq, Eq, Structural)]
pub enum AudioStep {
    Wait,
    /// Create the sink and forward what is played into it.
    Start { channels: u8, rate: u32 },
    /// There will be no audio.
    Stop,
}

/// Decides about a signal while the audio of the client does not run yet. A session that
/// was cancelled meanwhile starts no audio.
pub fn audio_step(signal: AudioSignal, cancelled: bool) -> (r: AudioStep)
    ensures
        r == (match signal {
            AudioSignal::Ready { channels, rate } => if cancelled {
                AudioStep::Stop
            } else {
                AudioStep::Start { channels, rate }
            },
            AudioSignal::OtherMessage => AudioStep::Wait,
            AudioSignal::ClientGone | AudioSignal::Cancelled => AudioStep::Stop,
        }),
        r is Wait <==> signal is OtherMessage,
        r is Start <==> signal is Ready && !cancelled,
        r matches AudioStep::Start { channels, rate } ==> signal == (AudioSignal::Ready {
            channels,
            rate,
        }),
{
    match signal {
        AudioSignal::Ready { channels, rate } => if cancelled {
            AudioStep::Stop
        } else {
            AudioStep::Start { channels, rate }
        },
        AudioSignal::OtherMessage => AudioStep::Wait,
        AudioSignal::ClientGone | AudioSignal::Cancelled => AudioStep::Stop,
    }
}

// ----- frames

/// The number after `n`, where the numbers start again at 0 after 65535.
pub open spec fn next_frame_id(n: u16) -> u16 {
    ((n + 1) % 65536) as u16
}

/// Fragment `i` of a video frame that was cut into `pieces`. Only the first one carries the
/// keyframe flag.
pub open spec fn frame_message(
    frame_id: u16,
    is_keyframe: bool,
    codec: Codec,
    pieces: Seq<Seq<u8>>,
    i: int,
) -> ServerMessage {
    ServerMessage::VideoFrame {
        frame_id,
        frag_idx: (i % 65536) as u16,
        num_frags: (pieces.len() % 65536) as u16,
        is_keyframe: is_keyframe && i == 0,
        codec,
        payload: pieces[i],
    }
}

/// The datagrams of a video frame.
pub open spec fn frame_datagrams(
    frame_id: u16,
    is_keyframe: bool,
    codec: Codec,
    data: Seq<u8>,
    payload_size: nat,
) -> Seq<Seq<u8>> {
    let pieces = fragments::chunks(data, payload_size);
    Seq::new(
        pieces.len(),
        |i: int|
            crate::shared::server_datagram::server_bytes(
                frame_message(frame_id, is_keyframe, codec, pieces, i),
            ),
    )
}

/// Cuts an encoded frame into datagrams.
pub fn fragment_frame(
    frame_id: u16,
    is_keyframe: bool,
    codec: Codec,
    data: &[u8],
    payload_size: usize,
) -> (r: Vec<Vec<u8>>)
    requires
        payload_size > 0,
    ensures
        fragments::byte_views(r@) == frame_datagrams(
            frame_id,
            is_keyframe,
            codec,
            data@,
            payload_size as nat,
        ),
{
    let pieces = fragments::split_chunks(data, payload_size);
    let ghost cut = fragments::chunks(data@, payload_size as nat);
    assert(cut.len() == pieces@.len());
    let num_frags: u16 = (pieces.len() % 65536) as u16;
    let mut r: Vec<Vec<u8>> = Vec::new();
    let mut i: usize = 0;
    while i < pieces.len()
        invariant
            i <= pieces.len(),
            num_frags == pieces@.len() % 65536,
            cut == fragments::byte_views(pieces@),
            r@.len() == i,
            forall|j: int|
                0 <= j < i ==> (#[trigger] r@[j])@ == crate::shared::server_datagram::server_bytes(
                    frame_message(frame_id, is_keyframe, codec, cut, j),
                ),
        decreases pieces.len() - i,
    {
        assert(cut[i as int] == pieces@[i as int]@);
        r.push(
            ServerDatagram::video_frame_to_bytes(
                frame_id,
                (i % 65536) as u16,
                num_frags,
                is_keyframe && i == 0,
                codec,
                pieces[i].as_slice(),
            ),
        );
        i += 1;
    }
    assert(fragments::byte_views(r@) =~= frame_datagrams(
        frame_id,
        is_keyframe,
        codec,
        data@,
        payload_size as nat,
    ));
    r
}

/// Numbers the frames of a session and cuts them into datagrams.
pub struct FrameForwarder {
    pub frame_id: u16,
    pub payload_size: usize,
}

impl FrameForwarder {
    pub open spec fn well_formed(self) -> bool {
        self.payload_size > 0
    }

    /// Starts with frame 0 on a connection that takes datagrams of this size.
    pub fn new(max_datagram_size: Option<usize>) -> (f: FrameForwarder)
        ensures
            f.well_formed(),
            f.frame_id == 0,
            f.payload_size == crate::shared::server_datagram::payload_limit(
                match max_datagram_size {
                    Some(n) => n as nat,
                    None => DEFAULT_DATAGRAM_SIZE as nat,
                },
            ),
            max_datagram_size is None ==> f.payload_size == 1191,
            max_datagram_size matches Some(n) ==> (n >= 10 ==> f.payload_size + 9 == n),
    {
        let size: usize = max_datagram_size.unwrap_or(DEFAULT_DATAGRAM_SIZE);
        FrameForwarder { frame_id: 0, payload_size: max_payload_size(size) }
    }

    /// The datagrams of the next frame.
    pub fn forward(&mut self, is_keyframe: bool, codec: Codec, data: &[u8]) -> (r: Vec<Vec<u8>>)
        requires
            old(self).well_formed(),
        ensures
            final(self).well_formed(),
            final(self).payload_size == old(self).payload_size,
            final(self).frame_id == next_frame_id(old(self).frame_id),
            fragments::byte_views(r@) == frame_datagrams(
                old(self).frame_id,
                is_keyframe,
                codec,
                data@,
                old(self).payload_size as nat,
            ),
    {
        let r = fragment_frame(self.frame_id, is_keyframe, codec, data, self.payload_size);
        self.skip();
        r
    }

    /// Passes over a frame whose bytes cannot be had.
    pub fn skip(&mut self)
        ensures
            final(self).payload_size == old(self).payload_size,
            final(self).frame_id == next_frame_id(old(self).frame_id),
    {
        self.frame_id = self.frame_id.wrapping_add(1);
    }
}

/// No datagram of a frame is larger than the connection takes, as soon as that is more than
/// a header.
pub proof fn frame_datagrams_fit(
    frame_id: u16,
    is_keyframe: bool,
    codec: Codec,
    data: Seq<u8>,
    max_datagram_size: nat,
    i: int,
)
    requires
        max_datagram_size > crate::shared::server_datagram::HEADER,
        0 <= i < frame_datagrams(
            frame_id,
            is_keyframe,
            codec,
            data,
            crate::shared::server_datagram::payload_limit(max_datagram_size),
        ).len(),
    ensures
        frame_datagrams(
            frame_id,
            is_keyframe,
            codec,
            data,
            crate::shared::server_datagram::payload_limit(max_datagram_size),
        )[i].len() <= max_datagram_size,
{
    let size = crate::shared::server_datagram::payload_limit(max_datagram_size);
    let pieces = fragments::chunks(data, size);
    fragments::chunks_are_sized(data, size);
    crate::shared::server_datagram::fragments_fit_their_datagrams(
        frame_message(frame_id, is_keyframe, codec, pieces, i),
        max_datagram_size,
    );
}

/// Each datagram of a frame is read as the fragment that it was made of.
pub proof fn frame_datagrams_are_read(
    frame_id: u16,
    is_keyframe: bool,
    codec: Codec,
    data: Seq<u8>,
    payload_size: nat,
    i: int,
)
    requires
        0 <= i < frame_datagrams(frame_id, is_keyframe, codec, data, payload_size).len(),
    ensures
        crate::shared::server_datagram::server_message(
            frame_datagrams(frame_id, is_keyframe, codec, data, payload_size)[i],
        ) == Ok::<ServerMessage, crate::shared::wire::WireError>(
            frame_message(frame_id, is_keyframe, codec, fragments::chunks(data, payload_size), i),
        ),
{
    crate::shared::server_datagram::server_message_arrives(
        frame_message(frame_id, is_keyframe, codec, fragments::chunks(data, payload_size), i),
    );
}

/// Frames are numbered one after the other, and 0 follows 65535.
pub proof fn frame_numbers_count_up(n: u16)
    ensures
        n < 65535 ==> next_frame_id(n) == n + 1,
        n == 65535 ==> next_frame_id(n) == 0,
{
}

/// The datagrams of a frame, byte by byte: all of them carry the frame's number, its codec and
/// the count of fragments, each its own place; only the first of a key frame says that it is
/// one; and the fragments hold the frame's bytes in order, as many as fit, the last the rest.
pub proof fn frames_are_sent_in_order(
    frame_id: u16,
    is_keyframe: bool,
    codec: Codec,
    data: Seq<u8>,
    payload_size: nat,
    i: int,
)
    requires
        payload_size > 0,
        0 <= i < frame_datagrams(frame_id, is_keyframe, codec, data, payload_size).len(),
    ensures
        ({
            let all = frame_datagrams(frame_id, is_keyframe, codec, data, payload_size);
            let b = all[i];
            let n = all.len() as int;
            &&& n == (data.len() + payload_size - 1) / payload_size as int
            &&& b.len() >= 9
            &&& b[0] == 0
            &&& 256 * b[1] + b[2] == frame_id
            &&& 256 * b[3] + b[4] == i % 65536
            &&& 256 * b[5] + b[6] == n % 65536
            &&& b[7] == 1 <==> is_keyframe && i == 0
            &&& b[7] <= 1
            &&& b[8] == crate::shared::codec::codec_byte(codec)
            &&& i + 1 < n ==> b.skip(9) == data.subrange(i * payload_size, (i + 1) * payload_size)
            &&& i + 1 == n ==> b.skip(9) == data.skip(i * payload_size)
        }),
{
    let pieces = fragments::chunks(data, payload_size);
    fragments::chunks_are_sized(data, payload_size);
    fragments::pieces_are_cut_in_order(data, payload_size, i);
    crate::shared::server_datagram::server_messages_are_laid_out(
        frame_message(frame_id, is_keyframe, codec, pieces, i),
    );
}

/// A parameter is that of the first `key=value` with the key: those before it do not count where
/// they have another key or no `=`, and those behind it never do.
pub proof fn parameters_are_found_in_order(
    before: Seq<Seq<char>>,
    param: Seq<char>,
    after: Seq<Seq<char>>,
    key: Seq<char>,
)
    requires
        forall|i: int|
            0 <= i < before.len() ==> !(text::cut(#[trigger] before[i], '=') matches Some((k, _))
                && k == key),
    ensures
        text::cut(param, '=') matches Some((k, v)) ==> k == key ==> parameter(
            before + seq![param] + after,
            key,
        ) == Some(v),
        parameter(before, key) is None,
    decreases before.len(),
{
    let all = before + seq![param] + after;
    if before.len() > 0 {
        let rest = before.drop_first();
        assert forall|i: int| 0 <= i < rest.len() implies !(text::cut(
            #[trigger] rest[i],
            '=',
        ) matches Some((k, _)) && k == key) by {
            assert(rest[i] == before[i + 1]);
        }
        parameters_are_found_in_order(rest, param, after, key);
        assert(all.drop_first() =~= rest + seq![param] + after);
        assert(all[0] == before[0]);
    } else {
        assert(all[0] == param);
    }
}

} // verus!
