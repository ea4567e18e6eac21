//! Audio: the sink that applications play into, and the way of its packets to the client.
use crate::shared::fragments;
use crate::shared::server_datagram::{
    AudioFormat, ServerDatagram, ServerMessage, MAX_AUDIO_DATAGRAM_PAYLOAD,
};
use crate::text;
use vstd::prelude::*;

verus! {

/// One encoded audio packet.
pub struct AudioPacket {
    pub channels: u8,
    pub rate: u32,
    pub format: AudioFormat,
    pub data: Vec<u8>,
}

/// The channels where the client names none.
pub const DEFAULT_CHANNELS: u8 = 2;

/// The rate where the client names none.
pub const DEFAULT_RATE: u32 = 48000;

/// The most channels that a sink gets.
pub const MAX_CHANNELS: u8 = 8;

/// The channels of the sink: those of the client, at most eight.
pub fn sink_channels(channels: u8) -> (r: u8)
    ensures
        r == (if channels == 0 {
            DEFAULT_CHANNELS
        } else if channels > MAX_CHANNELS {
            MAX_CHANNELS
        } else {
            channels
        }),
        1 <= r <= 8,
        1 <= channels <= 8 ==> r == channels,
        channels == 0 ==> r == 2,
        channels > 8 ==> r == 8,
{
    if channels == 0 {
        DEFAULT_CHANNELS
    } else if channels > MAX_CHANNELS {
        MAX_CHANNELS
    } else {
        channels
    }
}

/// The rate of the sink.
pub fn sink_rate(rate: u32) -> (r: u32)
    ensures
        r == (if rate == 0 {
            DEFAULT_RATE
        } else {
            rate
        }),
        rate > 0 ==> r == rate,
        rate == 0 ==> r == 48000,
{
    if rate == 0 {
        DEFAULT_RATE
    } else {
        rate
    }
}

/// `AUX0`, `AUX1` and so on.
pub open spec fn aux_names(n: nat) -> Seq<Seq<char>> {
    Seq::new(n, |i: int| "AUX"@ + text::decimal(i as nat))
}

/// The PipeWire channel map for so many channels: a named layout for the common counts.
pub open spec fn channel_layout(channels: u8) -> Seq<char> {
    if channels == 1 {
        "MONO"@
    } else if channels == 2 {
        "FL,FR"@
    } else if channels == 3 {
        "FL,FR,FC"@
    } else if channels == 4 {
        "FL,FR,RL,RR"@
    } else if channels == 5 {
        "FL,FR,FC,RL,RR"@
    } else if channels == 6 {
        "FL,FR,FC,LFE,RL,RR"@
    } else if channels == 7 {
        "FL,FR,FC,LFE,SL,SR,BC"@
    } else if channels == 8 {
        "FL,FR,FC,LFE,RL,RR,SL,SR"@
    } else {
        text::joined(aux_names(channels as nat), ","@)
    }
}

/// The PipeWire channel map for so many channels.
pub fn channel_map(channels: u8) -> (s: String)
    ensures
        s@ == channel_layout(channels),
{
    match channels {
        1 => "MONO".to_owned(),
        2 => "FL,FR".to_owned(),
        3 => "FL,FR,FC".to_owned(),
        4 => "FL,FR,RL,RR".to_owned(),
        5 => "FL,FR,FC,RL,RR".to_owned(),
        6 => "FL,FR,FC,LFE,RL,RR".to_owned(),
        7 => "FL,FR,FC,LFE,SL,SR,BC".to_owned(),
        8 => "FL,FR,FC,LFE,RL,RR,SL,SR".to_owned(),
        n => {
            let mut names: Vec<String> = Vec::new();
            let mut i: u8 = 0;
            while i < n
                invariant
                    i <= n,
                    text::views(names@) == aux_names(i as nat),
                decreases n - i,
            {
                let mut name = "AUX".to_owned();
                text::push_decimal(&mut name, i as u64);
                let ghost before = names@;
                names.push(name);
                assert(text::views(names@) =~= text::views(before).push(name@));
                i += 1;
                assert(text::views(names@) =~= aux_names(i as nat));
            }
            text::join(&names, ",")
        },
    }
}

/// The name of a session's sink.
pub open spec fn sink_node(name: Seq<char>) -> Seq<char> {
    name + "-audio-sink"@
}

/// The name of a session's sink.
pub fn sink_name(name: &str) -> (s: String)
    ensures
        s@ == sink_node(name@),
{
    let mut s = name.to_owned();
    s.append("-audio-sink");
    s
}

/// The description of the pipeline that encodes what is played into a session's sink.
pub open spec fn audio_pipeline_text(name: Seq<char>, channels: nat, rate: nat) -> Seq<char> {
    "pulsesrc device="@ + name + "-audio-sink.monitor client-name="@ + name
        + " ! audioconvert ! audioresample ! capsfilter caps=\"audio/x-raw,format=S16LE,rate="@
        + text::decimal(rate) + ",channels="@ + text::decimal(channels)
        + "\" ! opusenc bitrate=128000 ! appsink name=sink sync=false"@
}

/// The description of the pipeline that encodes what is played into a session's sink.
pub fn audio_pipeline_description(name: &str, channels: u8, rate: u32) -> (s: String)
    ensures
        s@ == audio_pipeline_text(name@, channels as nat, rate as nat),
{
    let mut s = "pulsesrc device=".to_owned();
    s.append(name);
    s.append("-audio-sink.monitor client-name=");
    s.append(name);
    s.append(" ! audioconvert ! audioresample ! capsfilter caps=\"audio/x-raw,format=S16LE,rate=");
    text::push_decimal(&mut s, rate as u64);
    s.append(",channels=");
    text::push_decimal(&mut s, channels as u64);
    s.append("\" ! opusenc bitrate=128000 ! appsink name=sink sync=false");
    s
}

/// Fragment `i` of an audio packet that was cut into `pieces`.
pub open spec fn packet_message(
    frame_id: u16,
    channels: u8,
    rate: u32,
    format: AudioFormat,
    pieces: Seq<Seq<u8>>,
    i: int,
) -> ServerMessage {
    ServerMessage::AudioFrame {
        frame_id,
        frag_idx: (i % 65536) as u16,
        num_frags: (pieces.len() % 65536) as u16,
        channels,
        rate,
        format,
        payload: pieces[i],
    }
}

/// The messages of an audio packet.
pub open spec fn packet_messages(frame_id: u16, packet: AudioPacket) -> Seq<ServerMessage> {
    let pieces = fragments::chunks(packet.data@, MAX_AUDIO_DATAGRAM_PAYLOAD as nat);
    Seq::new(
        pieces.len(),
        |i: int|
            packet_message(frame_id, packet.channels, packet.rate, packet.format, pieces, i),
    )
}

/// What the messages say.
pub open spec fn message_views(v: Seq<ServerDatagram>) -> Seq<ServerMessage> {
    v.map_values(|d: ServerDatagram| d@)
}

/// Numbers the audio packets of a session and cuts them into messages.
pub struct AudioForwarder {
    pub frame_id: u16,
}

impl AudioForwarder {
    /// Starts with packet 0.
    pub fn new() -> (f: AudioForwarder)
        ensures
            f.frame_id == 0,
    {
        AudioForwarder { frame_id: 0 }
    }

    /// The messages of the next packet. An empty packet makes none and takes no number.
    pub fn forward(&mut self, packet: &AudioPacket) -> (r: Vec<ServerDatagram>)
        ensures
            message_views(r@) == packet_messages(old(self).frame_id, *packet),
            final(self).frame_id == (if packet.data@.len() == 0 {
                old(self).frame_id
            } else {
                crate::server::wt::next_frame_id(old(self).frame_id)
            }),
    {
        let mut r: Vec<ServerDatagram> = Vec::new();
        let ghost cut = fragments::chunks(packet.data@, MAX_AUDIO_DATAGRAM_PAYLOAD as nat);
        if packet.data.len() == 0 {
            assert(message_views(r@) =~= packet_messages(self.frame_id, *packet));
            return r;
        }
        let pieces = fragments::split_chunks(packet.data.as_slice(), MAX_AUDIO_DATAGRAM_PAYLOAD);
        let num_frags: u16 = (pieces.len() % 65536) as u16;
        let frame_id = self.frame_id;
        let ghost all = pieces@;
        assert(cut.len() == all.len());
        let mut i: usize = 0;
        while i < pieces.len()
            invariant
                i <= pieces.len(),
                pieces@ == all,
                num_frags == all.len() % 65536,
                cut == fragments::byte_views(all),
                r@.len() == i,
                forall|j: int|
                    0 <= j < i ==> (#[trigger] r@[j])@ == packet_message(
                        frame_id,
                        packet.channels,
                        packet.rate,
                        packet.format,
                        cut,
                        j,
                    ),
            decreases pieces.len() - i,
        {
            assert(cut[i as int] == all[i as int]@);
            let payload = vstd::slice::slice_to_vec(pieces[i].as_slice());
            assert(payload@ =~= cut[i as int]);
            r.push(
                ServerDatagram::AudioFrame {
                    frame_id,
                    frag_idx: (i % 65536) as u16,
                    num_frags,
                    channels: packet.channels,
                    rate: packet.rate,
                    format: packet.format,
                    payload,
                },
            );
            i += 1;
        }
        assert(message_views(r@) =~= packet_messages(frame_id, *packet));
        self.frame_id = self.frame_id.wrapping_add(1);
        r
    }
}

/// The messages of a packet all carry its number, its format, rate and channels and the count of
/// fragments; each has its own place, and they hold the packet's bytes in order, 1187 in each
/// but the last, which holds the rest.
pub proof fn packets_are_sent_in_order(frame_id: u16, packet: AudioPacket, i: int)
    requires
        0 <= i < packet_messages(frame_id, packet).len(),
    ensures
        ({
            let all = packet_messages(frame_id, packet);
            let n = all.len() as int;
            &&& n == (packet.data@.len() + 1186) / 1187
            &&& all[i] matches ServerMessage::AudioFrame {
                frame_id: id,
                frag_idx,
                num_frags,
                channels,
                rate,
                format,
                payload,
            } && id == frame_id && frag_idx == i % 65536 && num_frags == n % 65536 && channels
                == packet.channels && rate == packet.rate && format == packet.format && (i + 1 < n
                ==> payload == packet.data@.subrange(1187 * i, 1187 * (i + 1))) && (i + 1 == n
                ==> payload == packet.data@.skip(1187 * i))
        }),
{
    fragments::chunks_are_sized(packet.data@, 1187);
    fragments::pieces_are_cut_in_order(packet.data@, 1187, i);
    assert(i * 1187 == 1187 * i);
}

/// An empty packet is not sent at all.
pub proof fn empty_packets_are_not_sent(frame_id: u16, packet: AudioPacket)
    ensures
        packet_messages(frame_id, packet).len() == 0 <==> packet.data@.len() == 0,
{
    fragments::chunks_are_sized(packet.data@, 1187);
}

/// Up to eight channels are laid out by the places of their speakers, one for each channel.
pub proof fn channels_have_their_places(channels: u8)
    requires
        1 <= channels <= 8,
    ensures
        channel_layout(channels) == text::joined(
            if channels == 1 {
                seq!["MONO"@]
            } else if channels == 2 {
                seq!["FL"@, "FR"@]
            } else if channels == 3 {
                seq!["FL"@, "FR"@, "FC"@]
            } else if channels == 4 {
                seq!["FL"@, "FR"@, "RL"@, "RR"@]
            } else if channels == 5 {
                seq!["FL"@, "FR"@, "FC"@, "RL"@, "RR"@]
            } else if channels == 6 {
                seq!["FL"@, "FR"@, "FC"@, "LFE"@, "RL"@, "RR"@]
            } else if channels == 7 {
                seq!["FL"@, "FR"@, "FC"@, "LFE"@, "SL"@, "SR"@, "BC"@]
            } else {
                seq!["FL"@, "FR"@, "FC"@, "LFE"@, "RL"@, "RR"@, "SL"@, "SR"@]
            },
            ","@,
        ),
{
    reveal_strlit("MONO");
    reveal_strlit("FL");
    reveal_strlit("FR");
    reveal_strlit("FC");
    reveal_strlit("RL");
    reveal_strlit("RR");
    reveal_strlit("SL");
    reveal_strlit("SR");
    reveal_strlit("BC");
    reveal_strlit("LFE");
    reveal_strlit(",");
    reveal_strlit("FL,FR");
    reveal_strlit("FL,FR,FC");
    reveal_strlit("FL,FR,RL,RR");
    reveal_strlit("FL,FR,FC,RL,RR");
    reveal_strlit("FL,FR,FC,LFE,RL,RR");
    reveal_strlit("FL,FR,FC,LFE,SL,SR,BC");
    reveal_strlit("FL,FR,FC,LFE,RL,RR,SL,SR");
    reveal_with_fuel(text::joined, 9);
}

/// More channels than eight have no places, but numbers: `AUX0` and so on, with commas between.
pub proof fn further_channels_are_numbered(channels: u8, i: int)
    requires
        channels == 0 || channels > 8,
        0 <= i < channels,
    ensures
        channel_layout(channels) == text::joined(aux_names(channels as nat), ","@),
        aux_names(channels as nat).len() == channels,
        aux_names(channels as nat)[i] == "AUX"@ + text::decimal(i as nat),
{
}

/// A pipeline listens to the monitor of the sink that is made for the same name, at the rate and
/// with the channels that are asked for.
pub proof fn pipelines_listen_to_their_sink(name: Seq<char>, channels: nat, rate: nat)
    ensures
        text::begins(
            audio_pipeline_text(name, channels, rate),
            "pulsesrc device="@ + sink_node(name) + ".monitor"@,
        ),
        text::begins(sink_node(name), name),
        text::occurs(
            audio_pipeline_text(name, channels, rate),
            ",rate="@ + text::decimal(rate) + ",channels="@ + text::decimal(channels) + "\""@,
        ),
{
    reveal_strlit("-audio-sink");
    reveal_strlit(".monitor");
    reveal_strlit("-audio-sink.monitor client-name=");
    reveal_strlit(",rate=");
    reveal_strlit("\"");
    reveal_strlit(
        " ! audioconvert ! audioresample ! capsfilter caps=\"audio/x-raw,format=S16LE,rate=",
    );
    reveal_strlit("\" ! opusenc bitrate=128000 ! appsink name=sink sync=false");
    let s = audio_pipeline_text(name, channels, rate);
    let head = "pulsesrc device="@ + sink_node(name) + ".monitor"@;
    assert(s.subrange(0, head.len() as int) =~= head);
    text::parts_are_found(Seq::empty(), name, "-audio-sink"@);
    let caps = " ! audioconvert ! audioresample ! capsfilter caps=\"audio/x-raw,format=S16LE,rate="@;
    let before = "pulsesrc device="@ + name + "-audio-sink.monitor client-name="@ + name + caps;
    let part = ",rate="@ + text::decimal(rate) + ",channels="@ + text::decimal(channels) + "\""@;
    let at = before.len() - 6;
    assert(caps.skip(caps.len() - 6) =~= ",rate="@);
    assert(s.subrange(at, at + part.len()) =~= part);
    assert(text::occurs_at(s, part, at));
}

} // verus!
