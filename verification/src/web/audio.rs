//! Audio in the browser: Opus packets, their length and their place in time.
use super::assembly::PacketAssembler;
use crate::shared::wire;
use vstd::prelude::*;

verus! {

// ----- Opus

/// The four bytes of a number, the lowest first.
pub open spec fn le32(x: u32) -> Seq<u8> {
    wire::be32(x).reverse()
}

/// The identification header of an Opus stream (RFC 7845), as a decoder description.
pub open spec fn opus_head(channels: u8, rate: u32) -> Seq<u8> {
    seq![0x4fu8, 0x70, 0x75, 0x73, 0x48, 0x65, 0x61, 0x64] + seq![1u8, channels, 0, 0] + le32(rate)
        + seq![0u8, 0] + if channels == 2 {
        seq![1u8, 1, 1, 0, 1]
    } else {
        seq![0u8]
    }
}

/// The identification header of an Opus stream.
pub fn opus_identification_header(channels: u8, rate: u32) -> (r: Vec<u8>)
    ensures
        r@ == opus_head(channels, rate),
{
    let mut v: Vec<u8> = Vec::new();
    // "OpusHead", then the version.
    v.push(0x4f);
    v.push(0x70);
    v.push(0x75);
    v.push(0x73);
    v.push(0x48);
    v.push(0x65);
    v.push(0x61);
    v.push(0x64);
    v.push(1);
    v.push(channels);
    // Pre-skip.
    v.push(0);
    v.push(0);
    // Input sample rate.
    v.push((rate % 256) as u8);
    v.push((rate / 0x100 % 256) as u8);
    v.push((rate / 0x10000 % 256) as u8);
    v.push((rate / 0x1000000) as u8);
    // Output gain.
    v.push(0);
    v.push(0);
    if channels == 2 {
        // Mapping family, streams, coupled streams and the mapping of both channels.
        v.push(1);
        v.push(1);
        v.push(1);
        v.push(0);
        v.push(1);
    } else {
        v.push(0);
    }
    assert(v@ =~= opus_head(channels, rate));
    v
}

/// `fs` times two to the `n`th, in 32 bits.
pub open spec fn shifted(fs: u32, n: int) -> int {
    (if n == 0 {
        fs as int
    } else if n == 1 {
        fs * 2
    } else if n == 2 {
        fs * 4
    } else {
        fs * 8
    }) % 0x1_0000_0000
}

/// The samples of one Opus frame (RFC 6716), going by the first byte of its packet: its top
/// bits tell the mode and its length.
pub open spec fn frame_samples(toc: u8, fs: u32) -> int {
    let n = (toc / 8 % 4) as int;
    if toc >= 0x80 {
        shifted(fs, n) / 400
    } else if toc / 32 % 4 == 3 {
        if toc / 8 % 2 == 1 {
            (fs / 50) as int
        } else {
            (fs / 100) as int
        }
    } else if n == 3 {
        fs * 60 / 1000
    } else {
        shifted(fs, n) / 100
    }
}

/// Whether the length of a frame can be computed in 32 bits.
pub open spec fn frame_samples_fit(toc: u8, fs: u32) -> bool {
    toc < 0x80 && toc / 32 % 4 != 3 && toc / 8 % 4 == 3 ==> fs * 60 <= u32::MAX
}

fn shift(fs: u32, n: u8) -> (r: u32)
    requires
        n < 4,
    ensures
        r == shifted(fs, n as int),
{
    let k: u64 = if n == 0 {
        1
    } else if n == 1 {
        2
    } else if n == 2 {
        4
    } else {
        8
    };
    (fs as u64 * k % 0x1_0000_0000) as u32
}

/// The samples of one Opus frame.
pub fn opus_samples_per_frame(toc: u8, fs: u32) -> (r: u32)
    requires
        frame_samples_fit(toc, fs),
    ensures
        r == frame_samples(toc, fs),
{
    let n: u8 = toc / 8 % 4;
    if toc >= 0x80 {
        shift(fs, n) / 400
    } else if toc / 32 % 4 == 3 {
        if toc / 8 % 2 == 1 {
            fs / 50
        } else {
            fs / 100
        }
    } else if n == 3 {
        fs * 60 / 1000
    } else {
        shift(fs, n) / 100
    }
}

/// The number of frames in an Opus packet.
pub open spec fn packet_frames(packet: Seq<u8>) -> Option<u32> {
    if packet.len() == 0 {
        None
    } else if packet[0] % 4 == 0 {
        Some(1)
    } else if packet[0] % 4 != 3 {
        Some(2)
    } else if packet.len() < 2 {
        None
    } else {
        Some((packet[1] % 64) as u32)
    }
}

/// The number of frames in an Opus packet; none where it is cut short.
pub fn opus_nb_frames(packet: &[u8]) -> (r: Option<u32>)
    ensures
        r == packet_frames(packet@),
{
    if packet.len() == 0 {
        return None;
    }
    let mode: u8 = packet[0] % 4;
    if mode == 0 {
        Some(1)
    } else if mode != 3 {
        Some(2)
    } else if packet.len() < 2 {
        None
    } else {
        Some((packet[1] % 64) as u32)
    }
}

/// The samples of an Opus packet, for each channel; none where it is not valid: where it is cut
/// short, or its frames would last for more than 120 ms.
pub open spec fn packet_samples(packet: Seq<u8>, fs: u32) -> int {
    match packet_frames(packet) {
        Some(frames) => {
            let samples = frames * frame_samples(packet[0], fs);
            if samples * 25 > fs * 3 {
                0
            } else {
                samples
            }
        },
        None => 0,
    }
}

/// Whether the samples of a packet can be counted: the length of its frames can be computed in
/// 32 bits.
pub open spec fn packet_samples_fit(packet: Seq<u8>, fs: u32) -> bool {
    packet_frames(packet) is Some ==> frame_samples_fit(packet[0], fs)
}

/// The samples of an Opus packet, for each channel; 0 where it is not valid.
pub fn opus_packet_samples(packet: &[u8], fs: u32) -> (r: u32)
    requires
        packet_samples_fit(packet@, fs),
    ensures
        r == packet_samples(packet@, fs),
{
    match opus_nb_frames(packet) {
        Some(frames) => {
            let each: u32 = opus_samples_per_frame(packet[0], fs);
            assert(frames * each <= 64 * 0xffff_ffff) by (nonlinear_arith)
                requires
                    frames <= 64,
                    each <= 0xffff_ffff,
            ;
            let samples: u64 = frames as u64 * each as u64;
            if samples * 25 > fs as u64 * 3 {
                0
            } else {
                samples as u32
            }
        },
        None => 0,
    }
}

/// No packet counts for more than 120 ms.
pub proof fn packets_are_short(packet: Seq<u8>, fs: u32)
    ensures
        0 <= packet_samples(packet, fs) * 25 <= fs * 3,
{
    if packet_frames(packet) is Some {
        let frames = packet_frames(packet)->0;
        let each = frame_samples(packet[0], fs);
        assert(frames * each >= 0) by (nonlinear_arith)
            requires
                frames >= 0,
                each >= 0,
        ;
    }
}

/// At the rate of Opus itself, 48 kHz, every packet can be counted.
pub proof fn opus_rate_always_fits(packet: Seq<u8>)
    ensures
        packet_samples_fit(packet, 48000),
{
}

// ----- the player

/// A chunk for the audio decoder: a packet, and its time.
pub struct AudioChunk {
    /// In microseconds.
    pub timestamp: u64,
    pub data: Vec<u8>,
}

/// What an audio fragment leads to.
pub struct AudioPush {
    /// The decoder is to be configured with this description first.
    pub header: Option<Vec<u8>>,
    /// The packet that is complete now, to be decoded.
    pub chunk: Option<AudioChunk>,
}

/// Receives audio and gives each packet its time.
pub struct AudioPlayer {
    pub assembler: PacketAssembler,
    pub configured: bool,
    /// The samples of all packets so far.
    pub next_sample: u64,
}

impl AudioPlayer {
    /// Nothing has arrived yet.
    pub fn new() -> (p: AudioPlayer)
        ensures
            p.assembler@ == Map::<u16, super::assembly::Partial>::empty(),
            !p.configured,
            p.next_sample == 0,
    {
        AudioPlayer { assembler: PacketAssembler::new(), configured: false, next_sample: 0 }
    }

    /// Whether a packet can be given a time: there is a rate, and nothing runs over.
    pub open spec fn stampable(self, packet: Seq<u8>, rate: u32) -> bool {
        &&& rate > 0
        &&& packet_samples_fit(packet, rate)
        &&& self.next_sample * 1_000_000 <= u64::MAX
        &&& self.next_sample + packet_samples(packet, rate) <= u64::MAX
    }

    /// Whether a packet can be given a time.
    pub fn can_stamp(&self, packet: &[u8], rate: u32) -> (r: bool)
        ensures
            r == self.stampable(packet@, rate),
    {
        if rate == 0 || self.next_sample > 18446744073709 {
            return false;
        }
        match opus_nb_frames(packet) {
            Some(_) => {
                let toc: u8 = packet[0];
                toc >= 0x80 || toc / 32 % 4 == 3 || toc / 8 % 4 != 3 || rate <= 71582788
            },
            None => true,
        }
    }

    /// The time of a packet in microseconds: that of all samples before it.
    pub fn stamp(&mut self, packet: &[u8], rate: u32) -> (timestamp: u64)
        requires
            old(self).stampable(packet@, rate),
        ensures
            timestamp == old(self).next_sample * 1_000_000 / rate as int,
            final(self).next_sample == old(self).next_sample + packet_samples(packet@, rate),
            final(self).assembler@ == old(self).assembler@,
            final(self).configured == old(self).configured,
    {
        let samples: u64 = opus_packet_samples(packet, rate) as u64;
        let timestamp: u64 = self.next_sample * 1_000_000 / rate as u64;
        self.next_sample = self.next_sample + samples;
        timestamp
    }

    /// Whether an audio fragment can be taken: the packet that it completes, if it does, can be
    /// given a time.
    pub fn can_push(
        &self,
        frame_id: u16,
        frag_idx: u16,
        num_frags: u16,
        rate: u32,
        payload: &[u8],
    ) -> (r: bool)
        ensures
            r == (super::assembly::audio_step(
                self.assembler@,
                frame_id,
                frag_idx,
                num_frags,
                payload@,
            ).1 matches Some(packet) ==> self.stampable(packet, rate)),
    {
        match self.assembler.completed_by(frame_id, frag_idx, num_frags, payload) {
            Some(packet) => self.can_stamp(packet.as_slice(), rate),
            None => true,
        }
    }

    /// An audio fragment arrives. With the first one the decoder is configured. The packet that
    /// it completes, if it does, is decoded at the time of all samples before it, and its own
    /// samples count from then on.
    pub fn push(
        &mut self,
        frame_id: u16,
        frag_idx: u16,
        num_frags: u16,
        channels: u8,
        rate: u32,
        payload: Vec<u8>,
    ) -> (r: AudioPush)
        requires
            super::assembly::audio_step(
                old(self).assembler@,
                frame_id,
                frag_idx,
                num_frags,
                payload@,
            ).1 matches Some(packet) ==> old(self).stampable(packet, rate),
        ensures
            final(self).configured,
            super::assembly::fragment_view(r.header) == (if old(self).configured {
                None
            } else {
                Some(opus_head(channels, rate))
            }),
            final(self).assembler@ == super::assembly::audio_step(
                old(self).assembler@,
                frame_id,
                frag_idx,
                num_frags,
                payload@,
            ).0,
            match super::assembly::audio_step(
                old(self).assembler@,
                frame_id,
                frag_idx,
                num_frags,
                payload@,
            ).1 {
                Some(packet) => {
                    &&& r.chunk matches Some(chunk) && chunk.data@ == packet && chunk.timestamp
                        == old(self).next_sample * 1_000_000 / rate as int
                    &&& final(self).next_sample == old(self).next_sample + packet_samples(
                        packet,
                        rate,
                    )
                },
                None => r.chunk is None && final(self).next_sample == old(self).next_sample,
            },
    {
        let header = if self.configured {
            None
        } else {
            Some(opus_identification_header(channels, rate))
        };
        self.configured = true;
        let chunk = match self.assembler.push(frame_id, frag_idx, num_frags, payload) {
            Some(data) => {
                let timestamp = self.stamp(data.as_slice(), rate);
                Some(AudioChunk { timestamp, data })
            },
            None => None,
        };
        AudioPush { header, chunk }
    }
}

/// Packets follow each other in time: the one after a packet has no earlier time, and where
/// the rate is at most a million, a later one as soon as the packet holds a sample.
pub proof fn timestamps_increase(next_sample: nat, samples: nat, rate: nat)
    requires
        rate > 0,
    ensures
        next_sample * 1_000_000 / rate <= (next_sample + samples) * 1_000_000 / rate,
        rate <= 1_000_000 && samples > 0 ==> next_sample * 1_000_000 / rate < (next_sample
            + samples) * 1_000_000 / rate,
{
    let a = next_sample * 1_000_000;
    let b = (next_sample + samples) * 1_000_000;
    assert(a / rate <= b / rate) by (nonlinear_arith)
        requires
            a <= b,
            rate > 0,
    ;
    if rate <= 1_000_000 && samples > 0 {
        assert(a + rate <= b);
        assert((a + rate) / rate == a / rate + 1) by (nonlinear_arith)
            requires
                rate > 0,
        ;
        assert((a + rate) / rate <= b / rate) by (nonlinear_arith)
            requires
                a + rate <= b,
                rate > 0,
        ;
    }
}

/// Whether decoded audio is played: it holds something, and the audio context runs.
pub fn playable(channels: u32, frames: u32, suspended: bool) -> (r: bool)
    ensures
        r == (channels != 0 && frames != 0 && !suspended),
{
    channels != 0 && frames != 0 && !suspended
}

/// Whether the server was told that audio can be played. It is told once.
pub struct AudioReady {
    pub sent: bool,
}

impl AudioReady {
    /// It was not told yet.
    pub fn new() -> (r: AudioReady)
        ensures
            !r.sent,
    {
        AudioReady { sent: false }
    }

    /// The audio context is in some state; says whether to tell the server now.
    pub fn on_state(&mut self, running: bool) -> (tell: bool)
        ensures
            tell == (running && !old(self).sent),
            final(self).sent == (old(self).sent || running),
    {
        if running && !self.sent {
            self.sent = true;
            true
        } else {
            false
        }
    }
}

/// The samples of a packet do not depend on whether it is mono or stereo, on the padding or the
/// kind of its bit rate, nor on the sound in it: two packets with the same configuration (the
/// top five bits of the first byte), the same code (its low two bits) and, where this code is 3,
/// the same count of frames (the low six bits of the second byte) count for the same.
pub proof fn channels_do_not_count(a: Seq<u8>, b: Seq<u8>, fs: u32)
    requires
        a.len() > 0,
        b.len() > 0,
        a[0] / 8 == b[0] / 8,
        a[0] % 4 == b[0] % 4,
        a[0] % 4 == 3 ==> (a.len() >= 2 <==> b.len() >= 2),
        a[0] % 4 == 3 && a.len() >= 2 ==> a[1] % 64 == b[1] % 64,
    ensures
        packet_samples(a, fs) == packet_samples(b, fs),
{
    assert(frame_samples(a[0], fs) == frame_samples(b[0], fs));
}

/// How long a frame lasts goes by the configuration, the top five bits of the first byte (RFC
/// 6716, table 2): `tenths` of a millisecond at `fs` samples in a second are so many samples.
pub proof fn frames_last_by_configuration(toc: u8, fs: u32, tenths: int)
    requires
        fs < 0x2000_0000,
        toc / 8 < 12 ==> tenths == seq![100int, 200, 400, 600][toc as int / 8 % 4],
        12 <= toc / 8 < 16 ==> tenths == seq![100int, 200][toc as int / 8 % 2],
        16 <= toc / 8 ==> tenths == seq![25int, 50, 100, 200][toc as int / 8 % 4],
    ensures
        frame_samples(toc, fs) == tenths * fs / 10000,
{
    let n = toc as int / 8;
    if n < 12 {
        assert(seq![100int, 200, 400, 600][0] == 100);
        assert(seq![100int, 200, 400, 600][1] == 200);
        assert(seq![100int, 200, 400, 600][2] == 400);
        assert(seq![100int, 200, 400, 600][3] == 600);
        if n % 4 == 0 {
            assert(tenths * fs == 100 * fs);
        } else if n % 4 == 1 {
            assert(tenths * fs == 200 * fs);
        } else if n % 4 == 2 {
            assert(tenths * fs == 400 * fs);
        } else {
            assert(tenths * fs == 600 * fs);
        }
    } else if n < 16 {
        if n % 2 == 0 {
            assert(tenths * fs == 100 * fs);
        } else {
            assert(tenths * fs == 200 * fs);
        }
    } else {
        if n % 4 == 0 {
            assert(tenths * fs == 25 * fs);
        } else if n % 4 == 1 {
            assert(tenths * fs == 50 * fs);
        } else if n % 4 == 2 {
            assert(tenths * fs == 100 * fs);
        } else {
            assert(tenths * fs == 200 * fs);
        }
    }
}

/// A packet of so many frames, each of so many tenths of a millisecond, counts for that time at
/// the rate, or for nothing where it would last for more than 120 ms.
pub proof fn packets_last_as_their_frames(packet: Seq<u8>, fs: u32, tenths: int, frames: int)
    requires
        packet.len() > 0,
        packet[0] % 4 == 3 ==> packet.len() >= 2,
        fs < 0x2000_0000,
        packet[0] / 8 < 12 ==> tenths == seq![100int, 200, 400, 600][packet[0] as int / 8 % 4],
        12 <= packet[0] / 8 < 16 ==> tenths == seq![100int, 200][packet[0] as int / 8 % 2],
        16 <= packet[0] / 8 ==> tenths == seq![25int, 50, 100, 200][packet[0] as int / 8 % 4],
        packet[0] % 4 == 0 ==> frames == 1,
        packet[0] % 4 == 1 || packet[0] % 4 == 2 ==> frames == 2,
        packet[0] % 4 == 3 ==> frames == packet[1] % 64,
    ensures
        25 * (frames * (tenths * fs / 10000)) <= 3 * fs ==> packet_samples(packet, fs) == frames * (
        tenths * fs / 10000),
        25 * (frames * (tenths * fs / 10000)) > 3 * fs ==> packet_samples(packet, fs) == 0,
        fs % 400 == 0 && frames * tenths <= 1200 ==> 10000 * packet_samples(packet, fs) == frames
            * tenths * fs,
        fs % 400 == 0 && frames * tenths > 1200 && fs > 0 ==> packet_samples(packet, fs) == 0,
{
    frames_last_by_configuration(packet[0], fs, tenths);
    let each = tenths * fs / 10000;
    if fs % 400 == 0 {
        let k = fs as int / 400;
        let quarters = tenths / 25;
        assert(tenths == 25 * quarters);
        assert(tenths * fs == 10000 * (quarters * k)) by (nonlinear_arith)
            requires
                tenths == 25 * quarters,
                fs as int == 400 * k,
        ;
        assert(each == quarters * k);
        assert(frames * tenths * fs == 10000 * (frames * each)) by (nonlinear_arith)
            requires
                tenths * fs == 10000 * each,
        ;
        if frames * tenths <= 1200 {
            assert(frames * tenths * fs <= 1200 * fs) by (nonlinear_arith)
                requires
                    frames * tenths <= 1200,
                    fs >= 0,
            ;
        } else if fs > 0 {
            assert(frames * tenths * fs > 1200 * fs) by (nonlinear_arith)
                requires
                    frames * tenths > 1200,
                    fs > 0,
            ;
        }
    }
}

/// A packet that is cut short counts for nothing.
pub proof fn short_packets_count_for_nothing(packet: Seq<u8>, fs: u32)
    requires
        packet.len() == 0 || (packet.len() == 1 && packet[0] % 4 == 3),
    ensures
        packet_samples(packet, fs) == 0,
{
}

/// The header, byte by byte: `OpusHead`, version 1, the channels, no pre-skip, the rate with its
/// lowest byte first, no gain; then a mapping of its own for two channels, and none else.
pub proof fn opus_heads_are_laid_out(channels: u8, rate: u32)
    ensures
        ({
            let h = opus_head(channels, rate);
            &&& h.len() == if channels == 2 { 23int } else { 19 }
            &&& h.take(8) == seq![79u8, 112, 117, 115, 72, 101, 97, 100]
            &&& h[8] == 1
            &&& h[9] == channels
            &&& h[10] == 0 && h[11] == 0
            &&& h[12] + 256 * h[13] + 65536 * h[14] + 16777216 * h[15] == rate
            &&& h[16] == 0 && h[17] == 0
            &&& channels == 2 ==> h.skip(18) == seq![1u8, 1, 1, 0, 1]
            &&& channels != 2 ==> h.skip(18) == seq![0u8]
        }),
{
    let h = opus_head(channels, rate);
    assert(h.take(8) =~= seq![79u8, 112, 117, 115, 72, 101, 97, 100]);
    assert(channels == 2 ==> h.skip(18) =~= seq![1u8, 1, 1, 0, 1]);
    assert(channels != 2 ==> h.skip(18) =~= seq![0u8]);
}

/// The samples of a packet can be counted at every rate of up to 71 582 788 in a second; beyond
/// that only frames of 60 ms are too long for 32 bits.
pub proof fn usual_rates_fit(packet: Seq<u8>, fs: u32)
    ensures
        fs <= 71_582_788 ==> packet_samples_fit(packet, fs),
        fs > 71_582_788 && packet.len() >= 2 ==> (packet_samples_fit(packet, fs) <==> !(packet[0] / 8
            < 12 && packet[0] / 8 % 4 == 3)),
{
}

} // verus!
