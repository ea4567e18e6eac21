//! Video codecs, their one-byte wire form and the choice among them.
use super::wire::WireError;
use vstd::prelude::*;

verus! {

/// A video codec.
#[derive(Debug, Clone, Copy, PartialEq, Eq, Structural)]
pub enum Codec {
    Av1,
    H265,
    H264,
    Vp9,
}

/// The byte that stands for a codec.
pub open spec fn codec_byte(codec: Codec) -> u8 {
    match codec {
        Codec::Av1 => 0,
        Codec::H265 => 1,
        Codec::H264 => 2,
        Codec::Vp9 => 3,
    }
}

/// The codec that a byte stands for.
pub open spec fn byte_codec(b: u8) -> Option<Codec> {
    if b == 0 {
        Some(Codec::Av1)
    } else if b == 1 {
        Some(Codec::H265)
    } else if b == 2 {
        Some(Codec::H264)
    } else if b == 3 {
        Some(Codec::Vp9)
    } else {
        None
    }
}

/// All codecs, the best first.
pub open spec fn priority() -> Seq<Codec> {
    seq![Codec::Av1, Codec::H265, Codec::H264, Codec::Vp9]
}

/// The GStreamer element that encodes a codec on the GPU.
pub open spec fn encoder_element(codec: Codec) -> Seq<char> {
    match codec {
        Codec::Av1 => "vaav1enc"@,
        Codec::H265 => "vah265enc"@,
        Codec::H264 => "vah264enc"@,
        Codec::Vp9 => "vavp9enc"@,
    }
}

/// The name by which WebCodecs knows a codec.
pub open spec fn web_codec(codec: Codec) -> Seq<char> {
    match codec {
        Codec::Av1 => "av01.0.09M.08"@,
        Codec::H265 => "hvc1.1.6.L123.B0"@,
        Codec::H264 => "avc1.640028"@,
        Codec::Vp9 => "vp09.00.10.08"@,
    }
}

/// The best codec among those that the client decodes: none that comes before it in the
/// order of priority is among them. AV1 where the client decodes none.
pub open spec fn is_best_codec(decoders: Seq<Codec>, best: Codec) -> bool {
    ||| decoders.len() == 0 && best == Codec::Av1
    ||| {
        &&& decoders.contains(best)
        &&& forall|c: Codec|
            #![trigger decoders.contains(c)]
            decoders.contains(c) ==> codec_byte(best) <= codec_byte(c)
    }
}

impl Codec {
    /// All codecs, the best first.
    pub const ALL: [Codec; 4] = [Codec::Av1, Codec::H265, Codec::H264, Codec::Vp9];

    /// The codec that a byte stands for.
    pub fn from_byte(b: u8) -> (r: Result<Codec, WireError>)
        ensures
            r == (match byte_codec(b) {
                Some(codec) => Ok::<Codec, WireError>(codec),
                None => Err(WireError::Codec(b)),
            }),
    {
        match b {
            0 => Ok(Codec::Av1),
            1 => Ok(Codec::H265),
            2 => Ok(Codec::H264),
            3 => Ok(Codec::Vp9),
            d => Err(WireError::Codec(d)),
        }
    }

    /// The byte that stands for the codec.
    pub fn to_byte(self) -> (b: u8)
        ensures
            b == codec_byte(self),
    {
        match self {
            Codec::Av1 => 0,
            Codec::H265 => 1,
            Codec::H264 => 2,
            Codec::Vp9 => 3,
        }
    }

    /// The GStreamer element that encodes the codec on the GPU.
    pub fn gst_encoder_element(self) -> (s: &'static str)
        ensures
            s@ == encoder_element(self),
    {
        match self {
            Codec::Av1 => "vaav1enc",
            Codec::H265 => "vah265enc",
            Codec::H264 => "vah264enc",
            Codec::Vp9 => "vavp9enc",
        }
    }

    /// The name by which WebCodecs knows the codec.
    pub fn web_codec_string(self) -> (s: &'static str)
        ensures
            s@ == web_codec(self),
    {
        match self {
            Codec::Av1 => "av01.0.09M.08",
            Codec::H265 => "hvc1.1.6.L123.B0",
            Codec::H264 => "avc1.640028",
            Codec::Vp9 => "vp09.00.10.08",
        }
    }
}

/// The best codec among those that the client decodes.
pub fn select_codec(client_decoders: &[Codec]) -> (best: Codec)
    ensures
        is_best_codec(client_decoders@, best),
{
    let mut best: Codec = Codec::Av1;
    let mut found: bool = false;
    let mut i: usize = 0;
    while i < client_decoders.len()
        invariant
            i <= client_decoders.len(),
            found == (i > 0),
            !found ==> best == Codec::Av1,
            found ==> client_decoders@.contains(best),
            found ==> forall|j: int|
                0 <= j < i ==> codec_byte(best) <= codec_byte(#[trigger] client_decoders@[j]),
        decreases client_decoders.len() - i,
    {
        let codec = client_decoders[i];
        assert(client_decoders@[i as int] == codec);
        if !found || codec.to_byte() < best.to_byte() {
            best = codec;
            found = true;
        }
        i += 1;
    }
    best
}

/// A codec survives the way through its byte, and a byte that stands for a codec is that
/// codec's byte.
pub proof fn codec_byte_reads_back(codec: Codec, b: u8)
    ensures
        byte_codec(codec_byte(codec)) == Some(codec),
        byte_codec(b) matches Some(c) ==> codec_byte(c) == b,
{
}

/// The bytes number the codecs in the order of priority.
pub proof fn codec_bytes_follow_priority(i: int)
    requires
        0 <= i < priority().len(),
    ensures
        codec_byte(priority()[i]) == i,
{
}

/// Two best codecs for the same decoders are the same codec.
pub proof fn best_codec_is_unique(decoders: Seq<Codec>, a: Codec, b: Codec)
    requires
        is_best_codec(decoders, a),
        is_best_codec(decoders, b),
    ensures
        a == b,
{
    codec_byte_reads_back(a, 0);
    codec_byte_reads_back(b, 0);
}

/// Each codec has one number on the wire, 0 to 3 in the order of preference.
pub proof fn codecs_are_numbered(b: u8)
    ensures
        byte_codec(b) == Some(Codec::Av1) <==> b == 0,
        byte_codec(b) == Some(Codec::H265) <==> b == 1,
        byte_codec(b) == Some(Codec::H264) <==> b == 2,
        byte_codec(b) == Some(Codec::Vp9) <==> b == 3,
        byte_codec(b) is None <==> b > 3,
{
}

/// A codec is chosen only where no better one can be decoded: AV1 before H.265 before H.264
/// before VP9; AV1 where nothing is known.
pub proof fn better_codecs_win(decoders: Seq<Codec>, best: Codec)
    requires
        is_best_codec(decoders, best),
    ensures
        decoders.len() > 0 ==> decoders.contains(best),
        best == Codec::Av1 <==> decoders.len() == 0 || decoders.contains(Codec::Av1),
        best == Codec::H265 <==> decoders.contains(Codec::H265) && !decoders.contains(Codec::Av1),
        best == Codec::H264 <==> decoders.contains(Codec::H264) && !decoders.contains(Codec::Av1)
            && !decoders.contains(Codec::H265),
        best == Codec::Vp9 ==> !decoders.contains(Codec::Av1) && !decoders.contains(Codec::H265)
            && !decoders.contains(Codec::H264),
{
    assert(decoders.len() == 0 ==> forall|c: Codec| !decoders.contains(c));
}

/// Whatever the client can decode, there is a codec for it.
pub proof fn there_is_a_best_codec(decoders: Seq<Codec>)
    ensures
        exists|best: Codec| is_best_codec(decoders, best),
{
    if decoders.len() == 0 {
        assert(is_best_codec(decoders, Codec::Av1));
    } else if decoders.contains(Codec::Av1) {
        assert(is_best_codec(decoders, Codec::Av1));
    } else if decoders.contains(Codec::H265) {
        assert(is_best_codec(decoders, Codec::H265));
    } else if decoders.contains(Codec::H264) {
        assert(is_best_codec(decoders, Codec::H264));
    } else {
        assert(decoders.contains(decoders[0]));
        assert(is_best_codec(decoders, Codec::Vp9));
    }
}

/// The encoders are those of the VA plugin: `va`, the name of the codec, `enc`.
pub proof fn encoders_are_named_by_codec(codec: Codec)
    ensures
        encoder_element(codec) == "va"@ + (match codec {
            Codec::Av1 => "av1"@,
            Codec::H265 => "h265"@,
            Codec::H264 => "h264"@,
            Codec::Vp9 => "vp9"@,
        }) + "enc"@,
{
    reveal_strlit("va");
    reveal_strlit("enc");
    reveal_strlit("av1");
    reveal_strlit("h265");
    reveal_strlit("h264");
    reveal_strlit("vp9");
    reveal_strlit("vaav1enc");
    reveal_strlit("vah265enc");
    reveal_strlit("vah264enc");
    reveal_strlit("vavp9enc");
    assert("va"@ + "av1"@ + "enc"@ =~= "vaav1enc"@);
    assert("va"@ + "h265"@ + "enc"@ =~= "vah265enc"@);
    assert("va"@ + "h264"@ + "enc"@ =~= "vah264enc"@);
    assert("va"@ + "vp9"@ + "enc"@ =~= "vavp9enc"@);
}

/// The browser's name of a codec starts with the four letters that are registered for it.
pub proof fn browsers_know_codecs_by_four_letters(codec: Codec)
    ensures
        web_codec(codec).len() > 5,
        web_codec(codec).take(5) == (match codec {
            Codec::Av1 => "av01."@,
            Codec::H265 => "hvc1."@,
            Codec::H264 => "avc1."@,
            Codec::Vp9 => "vp09."@,
        }),
{
    reveal_strlit("av01.");
    reveal_strlit("hvc1.");
    reveal_strlit("avc1.");
    reveal_strlit("vp09.");
    reveal_strlit("av01.0.09M.08");
    reveal_strlit("hvc1.1.6.L123.B0");
    reveal_strlit("avc1.640028");
    reveal_strlit("vp09.00.10.08");
    assert("av01.0.09M.08"@.take(5) =~= "av01."@);
    assert("hvc1.1.6.L123.B0"@.take(5) =~= "hvc1."@);
    assert("avc1.640028"@.take(5) =~= "avc1."@);
    assert("vp09.00.10.08"@.take(5) =~= "vp09."@);
}

} // verus!
