//! Numbers in network byte order, and what can be wrong with bytes off the wire.
use crate::text;
use vstd::prelude::*;

verus! {

/// Why bytes were refused.
#[derive(Debug, Clone, Copy, PartialEq, Eq, Structural)]
pub enum WireError {
    /// There were no bytes at all.
    EmptyDatagram,
    /// The first byte names no client datagram.
    ClientDiscriminant(u8),
    /// The first byte names no server datagram.
    ServerDiscriminant(u8),
    /// The first byte names none of the datagrams that the input channel carries.
    DatagramType,
    /// A video frame of this many bytes has no room for its header.
    VideoFrameTooShort(usize),
    /// An audio frame of this many bytes has no room for its header.
    AudioFrameTooShort(usize),
    /// The byte stands for no codec.
    Codec(u8),
    /// The byte stands for no audio format.
    AudioFormat(u8),
    /// The byte stands for no log level.
    LogLevel(u8),
}

/// The message of an error.
pub open spec fn wire_message(error: WireError) -> Seq<char> {
    match error {
        WireError::EmptyDatagram => "Empty datagram"@,
        WireError::ClientDiscriminant(b) => "Invalid datagram discriminant: "@ + text::decimal(
            b as nat,
        ),
        WireError::ServerDiscriminant(b) => "Invalid server datagram discriminant: "@
            + text::decimal(b as nat),
        WireError::DatagramType => "Invalid datagram type"@,
        WireError::VideoFrameTooShort(n) => "VideoFrame datagram too short: "@ + text::decimal(
            n as nat,
        ) + " bytes"@,
        WireError::AudioFrameTooShort(n) => "AudioFrame datagram too short: "@ + text::decimal(
            n as nat,
        ) + " bytes"@,
        WireError::Codec(b) => "Invalid codec discriminant: "@ + text::decimal(b as nat),
        WireError::AudioFormat(b) => "Invalid audio format discriminant: "@ + text::decimal(
            b as nat,
        ),
        WireError::LogLevel(b) => "invalid log level byte: "@ + text::decimal(b as nat),
    }
}

fn numbered(before: &str, n: u64, after: &str) -> (s: String)
    ensures
        s@ == before@ + text::decimal(n as nat) + after@,
{
    let mut s = before.to_owned();
    text::push_decimal(&mut s, n);
    s.append(after);
    s
}

impl WireError {
    /// The message of the error.
    pub fn message(&self) -> (s: String)
        ensures
            s@ == wire_message(*self),
    {
        let s = match self {
            WireError::EmptyDatagram => "Empty datagram".to_owned(),
            WireError::ClientDiscriminant(b) => numbered(
                "Invalid datagram discriminant: ",
                *b as u64,
                "",
            ),
            WireError::ServerDiscriminant(b) => numbered(
                "Invalid server datagram discriminant: ",
                *b as u64,
                "",
            ),
            WireError::DatagramType => "Invalid datagram type".to_owned(),
            WireError::VideoFrameTooShort(n) => numbered(
                "VideoFrame datagram too short: ",
                *n as u64,
                " bytes",
            ),
            WireError::AudioFrameTooShort(n) => numbered(
                "AudioFrame datagram too short: ",
                *n as u64,
                " bytes",
            ),
            WireError::Codec(b) => numbered("Invalid codec discriminant: ", *b as u64, ""),
            WireError::AudioFormat(b) => numbered(
                "Invalid audio format discriminant: ",
                *b as u64,
                "",
            ),
            WireError::LogLevel(b) => numbered("invalid log level byte: ", *b as u64, ""),
        };
        proof {
            reveal_strlit("");
        }
        assert(s@ =~= wire_message(*self));
        s
    }
}

/// Two bytes, the high one first.
pub open spec fn be16(x: u16) -> Seq<u8> {
    seq![(x / 256) as u8, (x % 256) as u8]
}

/// Four bytes, the highest first.
pub open spec fn be32(x: u32) -> Seq<u8> {
    seq![
        (x / 0x1000000) as u8,
        (x / 0x10000 % 256) as u8,
        (x / 0x100 % 256) as u8,
        (x % 256) as u8,
    ]
}

/// The number in the two bytes from `i` on.
pub open spec fn at16(bytes: Seq<u8>, i: int) -> u16 {
    (bytes[i] * 256 + bytes[i + 1]) as u16
}

/// The number in the four bytes from `i` on.
pub open spec fn at32(bytes: Seq<u8>, i: int) -> u32 {
    (bytes[i] * 0x1000000 + bytes[i + 1] * 0x10000 + bytes[i + 2] * 0x100 + bytes[i + 3]) as u32
}

/// A number of two bytes reads back as itself, wherever it stands.
pub proof fn be16_reads_back(bytes: Seq<u8>, i: int, x: u16)
    requires
        0 <= i,
        i + 2 <= bytes.len(),
        bytes.subrange(i, i + 2) == be16(x),
    ensures
        at16(bytes, i) == x,
{
    let part = bytes.subrange(i, i + 2);
    assert(part[0] == bytes[i] && part[1] == bytes[i + 1]);
}

/// A number of four bytes reads back as itself, wherever it stands.
pub proof fn be32_reads_back(bytes: Seq<u8>, i: int, x: u32)
    requires
        0 <= i,
        i + 4 <= bytes.len(),
        bytes.subrange(i, i + 4) == be32(x),
    ensures
        at32(bytes, i) == x,
{
    let part = bytes.subrange(i, i + 4);
    assert(part[0] == bytes[i] && part[1] == bytes[i + 1] && part[2] == bytes[i + 2] && part[3]
        == bytes[i + 3]);
}

/// A signed number survives the way through its unsigned form.
pub proof fn signed_reads_back(a: i16, b: i32)
    ensures
        (a as u16) as i16 == a,
        (b as u32) as i32 == b,
{
    assert((a as u16) as i16 == a) by (bit_vector);
    assert((b as u32) as i32 == b) by (bit_vector);
}

/// Appends the two bytes of `x`.
pub fn push_be16(buf: &mut Vec<u8>, x: u16)
    ensures
        final(buf)@ == old(buf)@ + be16(x),
{
    buf.push((x / 256) as u8);
    buf.push((x % 256) as u8);
    assert(buf@ =~= old(buf)@ + be16(x));
}

/// Appends the four bytes of `x`.
pub fn push_be32(buf: &mut Vec<u8>, x: u32)
    ensures
        final(buf)@ == old(buf)@ + be32(x),
{
    buf.push((x / 0x1000000) as u8);
    buf.push((x / 0x10000 % 256) as u8);
    buf.push((x / 0x100 % 256) as u8);
    buf.push((x % 256) as u8);
    assert(buf@ =~= old(buf)@ + be32(x));
}

/// Appends a row of bytes.
pub fn push_bytes(buf: &mut Vec<u8>, bytes: &[u8])
    ensures
        final(buf)@ == old(buf)@ + bytes@,
{
    let mut i: usize = 0;
    while i < bytes.len()
        invariant
            i <= bytes.len(),
            buf@ == old(buf)@ + bytes@.take(i as int),
        decreases bytes.len() - i,
    {
        buf.push(bytes[i]);
        i += 1;
        assert(bytes@.take(i as int) =~= bytes@.take(i - 1).push(bytes@[i - 1]));
    }
    assert(bytes@.take(bytes@.len() as int) =~= bytes@);
}

/// The number in the two bytes from `i` on.
pub fn read_be16(bytes: &[u8], i: usize) -> (x: u16)
    requires
        i + 2 <= bytes.len(),
    ensures
        x == at16(bytes@, i as int),
{
    bytes[i] as u16 * 256 + bytes[i + 1] as u16
}

/// The number in the four bytes from `i` on.
pub fn read_be32(bytes: &[u8], i: usize) -> (x: u32)
    requires
        i + 4 <= bytes.len(),
    ensures
        x == at32(bytes@, i as int),
{
    bytes[i] as u32 * 0x1000000 + bytes[i + 1] as u32 * 0x10000 + bytes[i + 2] as u32 * 0x100
        + bytes[i + 3] as u32
}

/// A number of two bytes has the high one first: it is 256 times the first plus the second.
pub proof fn high_byte_comes_first_in_two(x: u16)
    ensures
        be16(x).len() == 2,
        256 * be16(x)[0] + be16(x)[1] == x,
{
}

/// A number of four bytes has the highest one first.
pub proof fn high_byte_comes_first_in_four(x: u32)
    ensures
        be32(x).len() == 4,
        16777216 * be32(x)[0] + 65536 * be32(x)[1] + 256 * be32(x)[2] + be32(x)[3] == x,
{
}

/// What is read at a place is the number whose bytes stand there, and nothing else counts.
pub proof fn reading_sees_its_bytes(bytes: Seq<u8>, i: int)
    ensures
        at16(bytes, i) == 256 * bytes[i] + bytes[i + 1],
        at32(bytes, i) == 16777216 * bytes[i] + 65536 * bytes[i + 1] + 256 * bytes[i + 2] + bytes[i
            + 3],
{
}

/// A negative number is sent as what it lacks of the next power of two.
pub proof fn negative_numbers_wrap(a: i16, b: i32)
    ensures
        a >= 0 ==> a as u16 == a,
        a < 0 ==> a as u16 == 65536 + a,
        b >= 0 ==> b as u32 == b,
        b < 0 ==> b as u32 == 0x1_0000_0000 + b,
{
    assert(a < 0 ==> a as u16 == 65536 + a) by (bit_vector);
    assert(b < 0 ==> b as u32 == 0x1_0000_0000 + b) by (bit_vector);
}

/// A number that is read as a signed one is negative where its top bit is set.
pub proof fn high_numbers_are_negative(a: u16, b: u32)
    ensures
        a < 32768 ==> a as i16 == a,
        a >= 32768 ==> a as i16 == a - 65536,
        b < 0x8000_0000 ==> b as i32 == b,
        b >= 0x8000_0000 ==> b as i32 == b - 0x1_0000_0000,
{
    assert(a >= 32768 ==> a as i16 == a - 65536) by (bit_vector);
    assert(b >= 0x8000_0000 ==> b as i32 == b - 0x1_0000_0000) by (bit_vector);
}

/// The words of an error name the byte or the length that is wrong, behind a colon.
pub proof fn errors_name_what_is_wrong(b: u8, n: usize)
    ensures
        text::ends(wire_message(WireError::ClientDiscriminant(b)), ": "@ + text::decimal(b as nat)),
        text::ends(wire_message(WireError::ServerDiscriminant(b)), ": "@ + text::decimal(b as nat)),
        text::ends(wire_message(WireError::Codec(b)), ": "@ + text::decimal(b as nat)),
        text::ends(wire_message(WireError::AudioFormat(b)), ": "@ + text::decimal(b as nat)),
        text::ends(wire_message(WireError::LogLevel(b)), ": "@ + text::decimal(b as nat)),
        text::ends(
            wire_message(WireError::VideoFrameTooShort(n)),
            ": "@ + text::decimal(n as nat) + " bytes"@,
        ),
        text::ends(
            wire_message(WireError::AudioFrameTooShort(n)),
            ": "@ + text::decimal(n as nat) + " bytes"@,
        ),
{
    reveal_strlit(": ");
    reveal_strlit("Invalid datagram discriminant: ");
    reveal_strlit("Invalid server datagram discriminant: ");
    reveal_strlit("Invalid codec discriminant: ");
    reveal_strlit("Invalid audio format discriminant: ");
    reveal_strlit("invalid log level byte: ");
    reveal_strlit("VideoFrame datagram too short: ");
    reveal_strlit("AudioFrame datagram too short: ");
    let d = text::decimal(b as nat);
    ends_with_number("Invalid datagram discriminant: "@, d);
    ends_with_number("Invalid server datagram discriminant: "@, d);
    ends_with_number("Invalid codec discriminant: "@, d);
    ends_with_number("Invalid audio format discriminant: "@, d);
    ends_with_number("invalid log level byte: "@, d);
    let e = text::decimal(n as nat) + " bytes"@;
    ends_with_number("VideoFrame datagram too short: "@, e);
    ends_with_number("AudioFrame datagram too short: "@, e);
    assert(": "@ + e =~= ": "@ + text::decimal(n as nat) + " bytes"@);
    assert("VideoFrame datagram too short: "@ + e =~= wire_message(
        WireError::VideoFrameTooShort(n),
    ));
    assert("AudioFrame datagram too short: "@ + e =~= wire_message(
        WireError::AudioFrameTooShort(n),
    ));
}

proof fn ends_with_number(words: Seq<char>, d: Seq<char>)
    requires
        words.len() >= 2,
        words[words.len() - 2] == ':',
        words.last() == ' ',
    ensures
        text::ends(words + d, ": "@ + d),
{
    reveal_strlit(": ");
    let a = words.take(words.len() - 2);
    assert(words + d =~= a + (": "@ + d));
    text::parts_are_found(a, ": "@ + d, Seq::empty());
}

} // verus!
