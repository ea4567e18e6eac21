//! What the browser sends to the server, one message per datagram.
use super::codec::Codec;
use super::wire::{self, WireError};
use crate::text;
use vstd::prelude::*;

verus! {

/// The modifier keys that are held.
#[derive(Debug, Clone, Copy, PartialEq, Eq, Structural)]
pub struct Modifiers {
    pub bits: u8,
}

pub const SHIFT: u8 = 1;

pub const CTRL: u8 = 2;

pub const ALT: u8 = 4;

pub const META: u8 = 8;

impl Modifiers {
    /// Only bits of known modifiers are set.
    pub open spec fn valid(self) -> bool {
        self.bits < 16
    }

    pub open spec fn shift(self) -> bool {
        self.bits % 2 == 1
    }

    pub open spec fn ctrl(self) -> bool {
        self.bits / 2 % 2 == 1
    }

    pub open spec fn alt(self) -> bool {
        self.bits / 4 % 2 == 1
    }

    pub open spec fn meta(self) -> bool {
        self.bits / 8 % 2 == 1
    }

    /// No modifiers.
    pub fn empty() -> (m: Modifiers)
        ensures
            m.valid(),
            m.bits == 0,
    {
        Modifiers { bits: 0 }
    }

    /// The modifiers that a byte names; bits of no modifier are dropped.
    pub fn from_bits_truncate(bits: u8) -> (m: Modifiers)
        ensures
            m.valid(),
            m.bits == bits % 16,
    {
        Modifiers { bits: bits % 16 }
    }

    /// The modifiers of four keys.
    pub fn from_keys(shift: bool, ctrl: bool, alt: bool, meta: bool) -> (m: Modifiers)
        ensures
            m.valid(),
            m.shift() == shift,
            m.ctrl() == ctrl,
            m.alt() == alt,
            m.meta() == meta,
    {
        let mut bits: u8 = 0;
        if shift {
            bits += SHIFT;
        }
        if ctrl {
            bits += CTRL;
        }
        if alt {
            bits += ALT;
        }
        if meta {
            bits += META;
        }
        Modifiers { bits }
    }

    /// Whether shift, control, alt and meta are held, in this order.
    pub fn keys(self) -> (held: (bool, bool, bool, bool))
        ensures
            held == (self.shift(), self.ctrl(), self.alt(), self.meta()),
    {
        (self.bits % 2 == 1, self.bits / 2 % 2 == 1, self.bits / 4 % 2 == 1, self.bits / 8 % 2 == 1)
    }
}

/// A message from the browser.
#[allow(inconsistent_fields)]
#[derive(Debug, Clone, PartialEq, Eq)]
pub enum ClientDatagram {
    /// Nothing but a sign of life.
    KeepAlive,
    /// A key was pressed.
    Keyboard { keycode: String, modifiers: Modifiers },
    /// The display should take this size.
    ResizeDisplay { index: u8, width: u16, height: u16 },
    /// A finger is down at, or has moved to, this place.
    Touchscreen { index: u8, x: u16, y: u16 },
    /// A finger was lifted.
    TouchscreenRelease { index: u8 },
    /// Something went wrong in the browser.
    Error { message: String },
    /// What the browser can decode.
    DecoderCapabilities { decoders: Vec<Codec> },
    /// The mouse has moved by so much.
    MouseMove { dx: i16, dy: i16 },
    /// A mouse button went down or up.
    MouseButton { button: u8, pressed: bool },
    /// The wheel was turned by so much.
    Scroll { dx: i32, dy: i32 },
}

/// What a message says.
#[allow(inconsistent_fields)]
#[verifier::ext_equal]
pub ghost enum ClientMessage {
    KeepAlive,
    Keyboard { keycode: Seq<char>, modifiers: Modifiers },
    ResizeDisplay { index: u8, width: u16, height: u16 },
    Touchscreen { index: u8, x: u16, y: u16 },
    TouchscreenRelease { index: u8 },
    Error { message: Seq<char> },
    DecoderCapabilities { decoders: Seq<Codec> },
    MouseMove { dx: i16, dy: i16 },
    MouseButton { button: u8, pressed: bool },
    Scroll { dx: i32, dy: i32 },
}

impl View for ClientDatagram {
    type V = ClientMessage;

    open spec fn view(&self) -> ClientMessage {
        match *self {
            ClientDatagram::KeepAlive => ClientMessage::KeepAlive,
            ClientDatagram::Keyboard { keycode, modifiers } => ClientMessage::Keyboard {
                keycode: keycode@,
                modifiers,
            },
            ClientDatagram::ResizeDisplay { index, width, height } => ClientMessage::ResizeDisplay {
                index,
                width,
                height,
            },
            ClientDatagram::Touchscreen { index, x, y } => ClientMessage::Touchscreen {
                index,
                x,
                y,
            },
            ClientDatagram::TouchscreenRelease { index } => ClientMessage::TouchscreenRelease {
                index,
            },
            ClientDatagram::Error { message } => ClientMessage::Error { message: message@ },
            ClientDatagram::DecoderCapabilities { decoders } => ClientMessage::DecoderCapabilities {
                decoders: decoders@,
            },
            ClientDatagram::MouseMove { dx, dy } => ClientMessage::MouseMove { dx, dy },
            ClientDatagram::MouseButton { button, pressed } => ClientMessage::MouseButton {
                button,
                pressed,
            },
            ClientDatagram::Scroll { dx, dy } => ClientMessage::Scroll { dx, dy },
        }
    }
}

/// The bytes of a row of codecs.
pub open spec fn codec_bytes(codecs: Seq<Codec>) -> Seq<u8> {
    codecs.map_values(|c: Codec| super::codec::codec_byte(c))
}

/// The codecs that a row of bytes names; bytes of no codec are passed over.
pub open spec fn known_codecs(bytes: Seq<u8>) -> Seq<Codec>
    decreases bytes.len(),
{
    if bytes.len() == 0 {
        Seq::empty()
    } else {
        let before = known_codecs(bytes.drop_last());
        match super::codec::byte_codec(bytes.last()) {
            Some(codec) => before.push(codec),
            None => before,
        }
    }
}

/// The text that bytes hold: UTF-8, with what is invalid in it replaced.
pub open spec fn text_of(bytes: Seq<u8>) -> Seq<char> {
    if vstd::utf8::valid_utf8(bytes) {
        vstd::utf8::decode_utf8(bytes)
    } else {
        text::utf8_lossy(bytes)
    }
}

/// The bytes of a message: its number, then its fields.
pub open spec fn client_bytes(m: ClientMessage) -> Seq<u8> {
    match m {
        ClientMessage::KeepAlive => seq![0u8],
        ClientMessage::Keyboard { keycode, modifiers } => seq![1u8, modifiers.bits]
            + vstd::utf8::encode_utf8(keycode),
        ClientMessage::ResizeDisplay { index, width, height } => seq![2u8, index] + wire::be16(
            width,
        ) + wire::be16(height),
        ClientMessage::Touchscreen { index, x, y } => seq![3u8] + wire::be16(x) + wire::be16(y)
            + seq![index],
        ClientMessage::TouchscreenRelease { index } => seq![4u8, index],
        ClientMessage::Error { message } => seq![5u8] + vstd::utf8::encode_utf8(message),
        ClientMessage::DecoderCapabilities { decoders } => seq![6u8, (decoders.len() % 256) as u8]
            + codec_bytes(decoders),
        ClientMessage::MouseMove { dx, dy } => seq![7u8] + wire::be16(dx as u16) + wire::be16(
            dy as u16,
        ),
        ClientMessage::MouseButton { button, pressed } => seq![
            8u8,
            button,
            if pressed { 1u8 } else { 0u8 },
        ],
        ClientMessage::Scroll { dx, dy } => seq![9u8] + wire::be32(dx as u32) + wire::be32(
            dy as u32,
        ),
    }
}

/// Whether the fields that the number of a message asks for are all there. Empty bytes
/// and unknown numbers ask for none.
pub open spec fn client_complete(bytes: Seq<u8>) -> bool {
    bytes.len() > 0 ==> {
        let n = bytes.len();
        let tag = bytes[0];
        if tag == 1 || tag == 4 {
            n >= 2
        } else if tag == 2 || tag == 3 {
            n >= 6
        } else if tag == 6 {
            n >= 2 && n >= 2 + bytes[1]
        } else if tag == 7 {
            n >= 5
        } else if tag == 8 {
            n >= 3
        } else if tag == 9 {
            n >= 9
        } else {
            true
        }
    }
}

/// The message that bytes hold.
pub open spec fn client_message(bytes: Seq<u8>) -> Result<ClientMessage, WireError> {
    if bytes.len() == 0 {
        Err(WireError::EmptyDatagram)
    } else if bytes[0] == 0 {
        Ok(ClientMessage::KeepAlive)
    } else if bytes[0] == 1 {
        Ok(
            ClientMessage::Keyboard {
                keycode: text_of(bytes.skip(2)),
                modifiers: Modifiers { bits: bytes[1] % 16 },
            },
        )
    } else if bytes[0] == 2 {
        Ok(
            ClientMessage::ResizeDisplay {
                index: bytes[1],
                width: wire::at16(bytes, 2),
                height: wire::at16(bytes, 4),
            },
        )
    } else if bytes[0] == 3 {
        Ok(
            ClientMessage::Touchscreen {
                index: bytes[5],
                x: wire::at16(bytes, 1),
                y: wire::at16(bytes, 3),
            },
        )
    } else if bytes[0] == 4 {
        Ok(ClientMessage::TouchscreenRelease { index: bytes[1] })
    } else if bytes[0] == 5 {
        Ok(ClientMessage::Error { message: text_of(bytes.skip(1)) })
    } else if bytes[0] == 6 {
        Ok(
            ClientMessage::DecoderCapabilities {
                decoders: known_codecs(bytes.subrange(2, 2 + bytes[1])),
            },
        )
    } else if bytes[0] == 7 {
        Ok(
            ClientMessage::MouseMove {
                dx: wire::at16(bytes, 1) as i16,
                dy: wire::at16(bytes, 3) as i16,
            },
        )
    } else if bytes[0] == 8 {
        Ok(ClientMessage::MouseButton { button: bytes[1], pressed: bytes[2] != 0 })
    } else if bytes[0] == 9 {
        Ok(
            ClientMessage::Scroll {
                dx: wire::at32(bytes, 1) as i32,
                dy: wire::at32(bytes, 5) as i32,
            },
        )
    } else {
        Err(WireError::ClientDiscriminant(bytes[0]))
    }
}

/// Whether the fields that the number of a message asks for are all there.
pub fn is_complete(bytes: &[u8]) -> (r: bool)
    ensures
        r == client_complete(bytes@),
{
    let n = bytes.len();
    if n == 0 {
        return true;
    }
    match bytes[0] {
        1 | 4 => n >= 2,
        2 | 3 => n >= 6,
        6 => n >= 2 && n - 2 >= bytes[1] as usize,
        7 => n >= 5,
        8 => n >= 3,
        9 => n >= 9,
        _ => true,
    }
}

/// Reads the codecs that a row of bytes names.
fn read_codecs(bytes: &[u8]) -> (r: Vec<Codec>)
    ensures
        r@ == known_codecs(bytes@),
{
    let mut r: Vec<Codec> = Vec::new();
    let mut i: usize = 0;
    while i < bytes.len()
        invariant
            i <= bytes.len(),
            r@ == known_codecs(bytes@.take(i as int)),
        decreases bytes.len() - i,
    {
        let ghost longer = bytes@.take(i + 1);
        assert(longer.drop_last() =~= bytes@.take(i as int));
        if let Ok(codec) = Codec::from_byte(bytes[i]) {
            r.push(codec);
        }
        i += 1;
    }
    assert(bytes@.take(bytes@.len() as int) =~= bytes@);
    r
}

impl ClientDatagram {
    /// What can arrive as it was sent: the modifiers are known ones, and the number of
    /// decoders fits the byte that counts them.
    pub open spec fn sendable(m: ClientMessage) -> bool {
        match m {
            ClientMessage::Keyboard { keycode, modifiers } => modifiers.valid(),
            ClientMessage::DecoderCapabilities { decoders } => decoders.len() < 256,
            _ => true,
        }
    }

    /// The bytes of the message.
    pub fn to_bytes(&self) -> (r: Vec<u8>)
        ensures
            r@ == client_bytes(self@),
    {
        let mut buf: Vec<u8> = Vec::new();
        match self {
            ClientDatagram::KeepAlive => {
                buf.push(0);
            },
            ClientDatagram::Keyboard { keycode, modifiers } => {
                buf.push(1);
                buf.push(modifiers.bits);
                wire::push_bytes(&mut buf, keycode.as_str().as_bytes());
            },
            ClientDatagram::ResizeDisplay { index, width, height } => {
                buf.push(2);
                buf.push(*index);
                wire::push_be16(&mut buf, *width);
                wire::push_be16(&mut buf, *height);
            },
            ClientDatagram::Touchscreen { index, x, y } => {
                buf.push(3);
                wire::push_be16(&mut buf, *x);
                wire::push_be16(&mut buf, *y);
                buf.push(*index);
            },
            ClientDatagram::TouchscreenRelease { index } => {
                buf.push(4);
                buf.push(*index);
            },
            ClientDatagram::Error { message } => {
                buf.push(5);
                wire::push_bytes(&mut buf, message.as_str().as_bytes());
            },
            ClientDatagram::DecoderCapabilities { decoders } => {
                buf.push(6);
                buf.push((decoders.len() % 256) as u8);
                let ghost head = buf@;
                let mut i: usize = 0;
                while i < decoders.len()
                    invariant
                        i <= decoders.len(),
                        buf@ == head + codec_bytes(decoders@.take(i as int)),
                    decreases decoders.len() - i,
                {
                    buf.push(decoders[i].to_byte());
                    i += 1;
                    assert(codec_bytes(decoders@.take(i as int)) =~= codec_bytes(
                        decoders@.take(i - 1),
                    ).push(super::codec::codec_byte(decoders@[i - 1])));
                }
                assert(decoders@.take(decoders@.len() as int) =~= decoders@);
            },
            ClientDatagram::MouseMove { dx, dy } => {
                buf.push(7);
                wire::push_be16(&mut buf, *dx as u16);
                wire::push_be16(&mut buf, *dy as u16);
            },
            ClientDatagram::MouseButton { button, pressed } => {
                buf.push(8);
                buf.push(*button);
                buf.push(if *pressed { 1 } else { 0 });
            },
            ClientDatagram::Scroll { dx, dy } => {
                buf.push(9);
                wire::push_be32(&mut buf, *dx as u32);
                wire::push_be32(&mut buf, *dy as u32);
            },
        }
        assert(buf@ =~= client_bytes(self@));
        buf
    }

    /// The message that the bytes hold.
    pub fn from_bytes(bytes: &[u8]) -> (r: Result<ClientDatagram, WireError>)
        requires
            client_complete(bytes@),
        ensures
            match r {
                Ok(d) => client_message(bytes@) == Ok::<ClientMessage, WireError>(d@),
                Err(e) => client_message(bytes@) == Err::<ClientMessage, WireError>(e),
            },
    {
        if bytes.len() == 0 {
            return Err(WireError::EmptyDatagram);
        }
        let n = bytes.len();
        Ok(
            match bytes[0] {
                0 => ClientDatagram::KeepAlive,
                1 => {
                    let modifiers = Modifiers::from_bits_truncate(bytes[1]);
                    let body = vstd::slice::slice_subrange(bytes, 2, n);
                    assert(body@ =~= bytes@.skip(2));
                    let keycode = text::from_utf8_lossy(body);
                    ClientDatagram::Keyboard { keycode, modifiers }
                },
                2 => {
                    let index = bytes[1];
                    let width = wire::read_be16(bytes, 2);
                    let height = wire::read_be16(bytes, 4);
                    ClientDatagram::ResizeDisplay { index, width, height }
                },
                3 => {
                    let x = wire::read_be16(bytes, 1);
                    let y = wire::read_be16(bytes, 3);
                    let index = bytes[5];
                    ClientDatagram::Touchscreen { index, x, y }
                },
                4 => ClientDatagram::TouchscreenRelease { index: bytes[1] },
                5 => {
                    let body = vstd::slice::slice_subrange(bytes, 1, n);
                    assert(body@ =~= bytes@.skip(1));
                    ClientDatagram::Error { message: text::from_utf8_lossy(body) }
                },
                6 => {
                    let len: usize = bytes[1] as usize;
                    let body = vstd::slice::slice_subrange(bytes, 2, 2 + len);
                    ClientDatagram::DecoderCapabilities { decoders: read_codecs(body) }
                },
                7 => {
                    let dx = wire::read_be16(bytes, 1) as i16;
                    let dy = wire::read_be16(bytes, 3) as i16;
                    ClientDatagram::MouseMove { dx, dy }
                },
                8 => ClientDatagram::MouseButton { button: bytes[1], pressed: bytes[2] != 0 },
                9 => {
                    let dx = wire::read_be32(bytes, 1) as i32;
                    let dy = wire::read_be32(bytes, 5) as i32;
                    ClientDatagram::Scroll { dx, dy }
                },
                tag => {
                    return Err(WireError::ClientDiscriminant(tag));
                },
            },
        )
    }
}

proof fn codecs_read_back(codecs: Seq<Codec>)
    ensures
        known_codecs(codec_bytes(codecs)) == codecs,
    decreases codecs.len(),
{
    if codecs.len() > 0 {
        codecs_read_back(codecs.drop_last());
        assert(codec_bytes(codecs).drop_last() =~= codec_bytes(codecs.drop_last()));
        super::codec::codec_byte_reads_back(codecs.last(), 0);
        assert(codecs.drop_last().push(codecs.last()) =~= codecs);
    } else {
        assert(codec_bytes(codecs) =~= Seq::<u8>::empty());
        assert(codecs =~= Seq::<Codec>::empty());
    }
}

/// A message arrives as it was sent: its bytes are complete and hold that same message.
pub proof fn client_message_arrives(m: ClientMessage)
    requires
        ClientDatagram::sendable(m),
    ensures
        client_complete(client_bytes(m)),
        client_message(client_bytes(m)) == Ok::<ClientMessage, WireError>(m),
{
    let b = client_bytes(m);
    match m {
        ClientMessage::Keyboard { keycode, modifiers } => {
            assert(b.skip(2) =~= vstd::utf8::encode_utf8(keycode));
            vstd::utf8::encode_utf8_valid_utf8(keycode);
            vstd::utf8::encode_utf8_decode_utf8(keycode);
        },
        ClientMessage::Error { message } => {
            assert(b.skip(1) =~= vstd::utf8::encode_utf8(message));
            vstd::utf8::encode_utf8_valid_utf8(message);
            vstd::utf8::encode_utf8_decode_utf8(message);
        },
        ClientMessage::DecoderCapabilities { decoders } => {
            assert(b.subrange(2, 2 + b[1]) =~= codec_bytes(decoders));
            codecs_read_back(decoders);
        },
        ClientMessage::ResizeDisplay { index, width, height } => {
            assert(b.subrange(2, 4) =~= wire::be16(width));
            assert(b.subrange(4, 6) =~= wire::be16(height));
            wire::be16_reads_back(b, 2, width);
            wire::be16_reads_back(b, 4, height);
        },
        ClientMessage::Touchscreen { index, x, y } => {
            assert(b.subrange(1, 3) =~= wire::be16(x));
            assert(b.subrange(3, 5) =~= wire::be16(y));
            wire::be16_reads_back(b, 1, x);
            wire::be16_reads_back(b, 3, y);
        },
        ClientMessage::MouseMove { dx, dy } => {
            assert(b.subrange(1, 3) =~= wire::be16(dx as u16));
            assert(b.subrange(3, 5) =~= wire::be16(dy as u16));
            wire::be16_reads_back(b, 1, dx as u16);
            wire::be16_reads_back(b, 3, dy as u16);
            wire::signed_reads_back(dx, 0);
            wire::signed_reads_back(dy, 0);
        },
        ClientMessage::Scroll { dx, dy } => {
            assert(b.subrange(1, 5) =~= wire::be32(dx as u32));
            assert(b.subrange(5, 9) =~= wire::be32(dy as u32));
            wire::be32_reads_back(b, 1, dx as u32);
            wire::be32_reads_back(b, 5, dy as u32);
            wire::signed_reads_back(0, dx);
            wire::signed_reads_back(0, dy);
        },
        _ => {},
    }
}

/// Two messages with the same bytes are the same message.
pub proof fn client_bytes_are_injective(a: ClientMessage, b: ClientMessage)
    requires
        ClientDatagram::sendable(a),
        ClientDatagram::sendable(b),
        client_bytes(a) == client_bytes(b),
    ensures
        a == b,
{
    client_message_arrives(a);
    client_message_arrives(b);
}

/// A set of modifiers is the sum of its bits: shift counts for 1, control for 2, alt for 4 and
/// meta for 8.
pub proof fn modifiers_are_their_bits(m: Modifiers)
    requires
        m.valid(),
    ensures
        m.bits == (if m.shift() { 1int } else { 0 }) + (if m.ctrl() { 2int } else { 0 }) + (
        if m.alt() { 4int } else { 0 }) + (if m.meta() { 8int } else { 0 }),
        m.bits <= 15,
{
}

/// The bytes of a message, one by one: its kind is the first; numbers have their high byte
/// first, negative ones as what they lack of the next power of two; texts run to the end.
pub proof fn client_messages_are_laid_out(m: ClientMessage)
    ensures
        ({
            let b = client_bytes(m);
            match m {
                ClientMessage::KeepAlive => b.len() == 1 && b[0] == 0,
                ClientMessage::Keyboard { keycode, modifiers } => b.len() >= 2 && b[0] == 1 && b[1]
                    == modifiers.bits && b.skip(2) == vstd::utf8::encode_utf8(keycode),
                ClientMessage::ResizeDisplay { index, width, height } => b.len() == 6 && b[0] == 2
                    && b[1] == index && 256 * b[2] + b[3] == width && 256 * b[4] + b[5] == height,
                ClientMessage::Touchscreen { index, x, y } => b.len() == 6 && b[0] == 3 && 256
                    * b[1] + b[2] == x && 256 * b[3] + b[4] == y && b[5] == index,
                ClientMessage::TouchscreenRelease { index } => b.len() == 2 && b[0] == 4 && b[1]
                    == index,
                ClientMessage::Error { message } => b.len() >= 1 && b[0] == 5 && b.skip(1)
                    == vstd::utf8::encode_utf8(message),
                ClientMessage::DecoderCapabilities { decoders } => b.len() == 2 + decoders.len()
                    && b[0] == 6 && (decoders.len() < 256 ==> b[1] == decoders.len()) && forall|
                    i: int,
                |
                    0 <= i < decoders.len() ==> #[trigger] b[2 + i] == super::codec::codec_byte(
                        decoders[i],
                    ),
                ClientMessage::MouseMove { dx, dy } => b.len() == 5 && b[0] == 7 && (256 * b[1]
                    + b[2] - dx) % 65536 == 0 && (256 * b[3] + b[4] - dy) % 65536 == 0,
                ClientMessage::MouseButton { button, pressed } => b.len() == 3 && b[0] == 8 && b[1]
                    == button && b[2] == if pressed { 1int } else { 0 },
                ClientMessage::Scroll { dx, dy } => b.len() == 9 && b[0] == 9 && (16777216 * b[1]
                    + 65536 * b[2] + 256 * b[3] + b[4] - dx) % 0x1_0000_0000 == 0 && (16777216
                    * b[5] + 65536 * b[6] + 256 * b[7] + b[8] - dy) % 0x1_0000_0000 == 0,
            }
        }),
{
    let b = client_bytes(m);
    match m {
        ClientMessage::Keyboard { keycode, modifiers } => {
            assert(b.skip(2) =~= vstd::utf8::encode_utf8(keycode));
        },
        ClientMessage::Error { message } => {
            assert(b.skip(1) =~= vstd::utf8::encode_utf8(message));
        },
        ClientMessage::MouseMove { dx, dy } => {
            wire::negative_numbers_wrap(dx, 0);
            wire::negative_numbers_wrap(dy, 0);
            wire::high_byte_comes_first_in_two(dx as u16);
            wire::high_byte_comes_first_in_two(dy as u16);
            assert(b[1] == wire::be16(dx as u16)[0] && b[2] == wire::be16(dx as u16)[1]);
            assert(b[3] == wire::be16(dy as u16)[0] && b[4] == wire::be16(dy as u16)[1]);
        },
        ClientMessage::Scroll { dx, dy } => {
            wire::negative_numbers_wrap(0, dx);
            wire::negative_numbers_wrap(0, dy);
            wire::high_byte_comes_first_in_four(dx as u32);
            wire::high_byte_comes_first_in_four(dy as u32);
            let p = wire::be32(dx as u32);
            let q = wire::be32(dy as u32);
            assert(b[1] == p[0] && b[2] == p[1] && b[3] == p[2] && b[4] == p[3]);
            assert(b[5] == q[0] && b[6] == q[1] && b[7] == q[2] && b[8] == q[3]);
        },
        _ => {},
    }
}

/// What the bytes of a datagram mean, whoever sent them: the first one tells the kind, and each
/// field is read off its own bytes.
pub proof fn client_bytes_are_read_by_place(b: Seq<u8>)
    requires
        client_complete(b),
    ensures
        b.len() == 0 <==> client_message(b) == Err::<ClientMessage, WireError>(
            WireError::EmptyDatagram,
        ),
        client_message(b) is Err <==> b.len() == 0 || b[0] >= 10,
        b.len() > 0 && b[0] >= 10 ==> client_message(b) == Err::<ClientMessage, WireError>(
            WireError::ClientDiscriminant(b[0]),
        ),
        client_message(b) matches Ok(m) ==> match m {
            ClientMessage::KeepAlive => b[0] == 0,
            ClientMessage::Keyboard { keycode, modifiers } => b[0] == 1 && modifiers.bits < 16
                && (b[1] - modifiers.bits) % 16 == 0 && keycode == text_of(b.skip(2)),
            ClientMessage::ResizeDisplay { index, width, height } => b[0] == 2 && index == b[1]
                && width == 256 * b[2] + b[3] && height == 256 * b[4] + b[5],
            ClientMessage::Touchscreen { index, x, y } => b[0] == 3 && index == b[5] && x == 256
                * b[1] + b[2] && y == 256 * b[3] + b[4],
            ClientMessage::TouchscreenRelease { index } => b[0] == 4 && index == b[1],
            ClientMessage::Error { message } => b[0] == 5 && message == text_of(b.skip(1)),
            ClientMessage::DecoderCapabilities { decoders } => b[0] == 6 && decoders
                == known_codecs(b.skip(2).take(b[1] as int)),
            ClientMessage::MouseMove { dx, dy } => b[0] == 7 && (256 * b[1] + b[2] - dx) % 65536
                == 0 && (256 * b[3] + b[4] - dy) % 65536 == 0,
            ClientMessage::MouseButton { button, pressed } => b[0] == 8 && button == b[1] && (
            pressed <==> b[2] > 0),
            ClientMessage::Scroll { dx, dy } => b[0] == 9 && (16777216 * b[1] + 65536 * b[2] + 256
                * b[3] + b[4] - dx) % 0x1_0000_0000 == 0 && (16777216 * b[5] + 65536 * b[6] + 256
                * b[7] + b[8] - dy) % 0x1_0000_0000 == 0,
        },
{
    if b.len() > 0 {
        wire::high_numbers_are_negative(wire::at16(b, 1), wire::at32(b, 1));
        wire::high_numbers_are_negative(wire::at16(b, 3), wire::at32(b, 5));
        if b[0] == 6 {
            assert(b.skip(2).take(b[1] as int) =~= b.subrange(2, 2 + b[1]));
        }
    }
}

/// What stands behind a message whose length is known is ignored; only the two that end in a
/// text take it in.
pub proof fn trailing_bytes_are_ignored(b: Seq<u8>, more: Seq<u8>)
    requires
        client_complete(b),
        b.len() > 0,
        b[0] != 1,
        b[0] != 5,
    ensures
        client_complete(b + more),
        client_message(b + more) == client_message(b),
{
    if b[0] == 6 {
        assert((b + more).subrange(2, 2 + b[1]) =~= b.subrange(2, 2 + b[1]));
    }
}

/// A message that lost a byte at its end is noticed, but for one that ends in a text or has no
/// field at all.
pub proof fn cut_messages_are_incomplete(m: ClientMessage, n: int)
    requires
        ClientDatagram::sendable(m),
        0 < n < client_bytes(m).len(),
        m !is Error,
    ensures
        m !is Keyboard ==> !client_complete(client_bytes(m).take(n)),
        m is Keyboard ==> (client_complete(client_bytes(m).take(n)) <==> n >= 2),
{
    client_messages_are_laid_out(m);
    let b = client_bytes(m);
    assert(b.take(n)[0] == b[0]);
    if n >= 2 {
        assert(b.take(n)[1] == b[1]);
    }
}

/// A text that is sent as UTF-8 is read as itself.
pub proof fn texts_read_back(s: Seq<char>)
    ensures
        text_of(vstd::utf8::encode_utf8(s)) == s,
{
    vstd::utf8::encode_utf8_valid_utf8(s);
    vstd::utf8::encode_utf8_decode_utf8(s);
}

/// Codecs are read one byte at a time: what two rows of bytes name, both name together, in their
/// order; a byte of 0, 1, 2 or 3 names a codec, and any other byte none.
pub proof fn codecs_are_read_byte_by_byte(a: Seq<u8>, b: Seq<u8>, byte: u8)
    ensures
        known_codecs(a + b) == known_codecs(a) + known_codecs(b),
        byte < 4 ==> known_codecs(seq![byte]) == seq![
            if byte == 0 {
                Codec::Av1
            } else if byte == 1 {
                Codec::H265
            } else if byte == 2 {
                Codec::H264
            } else {
                Codec::Vp9
            },
        ],
        byte >= 4 ==> known_codecs(seq![byte]).len() == 0,
    decreases b.len(),
{
    reveal_with_fuel(known_codecs, 2);
    assert(seq![byte].drop_last() =~= Seq::<u8>::empty());
    assert(seq![byte].last() == byte);
    if b.len() == 0 {
        assert(a + b =~= a);
        assert(known_codecs(a) + known_codecs(b) =~= known_codecs(a));
    } else {
        codecs_are_read_byte_by_byte(a, b.drop_last(), byte);
        assert((a + b).drop_last() =~= a + b.drop_last());
        assert((a + b).last() == b.last());
        assert(known_codecs(a + b) =~= known_codecs(a) + known_codecs(b));
    }
}

} // verus!
