//! The messages of the first input channel: keys and display sizes.
use crate::shared::client_datagram::Modifiers;
use crate::shared::wire::{self, WireError};
use crate::text;
use vstd::prelude::*;

verus! {

/// A message from the browser.
#[derive(Debug, Clone, PartialEq, Eq)]
pub enum ClientDatagram {
    KeepAlive,
    Keyboard { keycode: String, modifiers: Modifiers },
    ResizeDisplay { index: u8, width: u16, height: u16 },
}

/// What a message says.
#[verifier::ext_equal]
pub ghost enum InputMessage {
    KeepAlive,
    Keyboard { keycode: Seq<char>, modifiers: Modifiers },
    ResizeDisplay { index: u8, width: u16, height: u16 },
}

impl View for ClientDatagram {
    type V = InputMessage;

    open spec fn view(&self) -> InputMessage {
        match *self {
            ClientDatagram::KeepAlive => InputMessage::KeepAlive,
            ClientDatagram::Keyboard { keycode, modifiers } => InputMessage::Keyboard {
                keycode: keycode@,
                modifiers,
            },
            ClientDatagram::ResizeDisplay { index, width, height } => InputMessage::ResizeDisplay {
                index,
                width,
                height,
            },
        }
    }
}

/// Whether the fields that the number of a message asks for are all there.
pub open spec fn input_complete(bytes: Seq<u8>) -> bool {
    bytes.len() > 0 ==> (bytes[0] == 1 ==> bytes.len() >= 2) && (bytes[0] == 2 ==> bytes.len()
        >= 6)
}

/// The message that bytes hold.
pub open spec fn input_message(bytes: Seq<u8>) -> Result<InputMessage, WireError> {
    if bytes.len() == 0 {
        Err(WireError::EmptyDatagram)
    } else if bytes[0] == 0 {
        Ok(InputMessage::KeepAlive)
    } else if bytes[0] == 1 {
        Ok(
            InputMessage::Keyboard {
                keycode: crate::shared::client_datagram::text_of(bytes.skip(2)),
                modifiers: Modifiers { bits: bytes[1] % 16 },
            },
        )
    } else if bytes[0] == 2 {
        Ok(
            InputMessage::ResizeDisplay {
                index: bytes[1],
                width: wire::at16(bytes, 2),
                height: wire::at16(bytes, 4),
            },
        )
    } else {
        Err(WireError::DatagramType)
    }
}

/// Whether the fields that the number of a message asks for are all there.
pub fn is_complete(bytes: &[u8]) -> (r: bool)
    ensures
        r == input_complete(bytes@),
{
    let n = bytes.len();
    n == 0 || ((bytes[0] != 1 || n >= 2) && (bytes[0] != 2 || n >= 6))
}

impl ClientDatagram {
    /// The message that the bytes hold.
    pub fn from_bytes(bytes: &[u8]) -> (r: Result<ClientDatagram, WireError>)
        requires
            input_complete(bytes@),
        ensures
            match r {
                Ok(d) => input_message(bytes@) == Ok::<InputMessage, WireError>(d@),
                Err(e) => input_message(bytes@) == Err::<InputMessage, WireError>(e),
            },
    {
        if bytes.len() == 0 {
            return Err(WireError::EmptyDatagram);
        }
        match bytes[0] {
            0 => Ok(ClientDatagram::KeepAlive),
            1 => {
                let modifiers = Modifiers::from_bits_truncate(bytes[1]);
                let body = vstd::slice::slice_subrange(bytes, 2, bytes.len());
                assert(body@ =~= bytes@.skip(2));
                let keycode = text::from_utf8_lossy(body);
                Ok(ClientDatagram::Keyboard { keycode, modifiers })
            },
            2 => {
                let index = bytes[1];
                let width = wire::read_be16(bytes, 2);
                let height = wire::read_be16(bytes, 4);
                Ok(ClientDatagram::ResizeDisplay { index, width, height })
            },
            _ => Err(WireError::DatagramType),
        }
    }
}

/// The input channel reads keys and display sizes as the full client protocol does.
pub proof fn input_channel_agrees_with_the_full_protocol(bytes: Seq<u8>)
    requires
        input_message(bytes) is Ok,
    ensures
        match input_message(bytes)->Ok_0 {
            InputMessage::KeepAlive => crate::shared::client_datagram::client_message(bytes) == Ok::<
                _,
                WireError,
            >(crate::shared::client_datagram::ClientMessage::KeepAlive),
            InputMessage::Keyboard { keycode, modifiers } =>
            crate::shared::client_datagram::client_message(bytes) == Ok::<_, WireError>(
                crate::shared::client_datagram::ClientMessage::Keyboard { keycode, modifiers },
            ),
            InputMessage::ResizeDisplay { index, width, height } =>
            crate::shared::client_datagram::client_message(bytes) == Ok::<_, WireError>(
                crate::shared::client_datagram::ClientMessage::ResizeDisplay {
                    index,
                    width,
                    height,
                },
            ),
        },
{
}

/// Datagrams of the three kinds are complete as in the full protocol, and all others are; what
/// is no message is either nothing at all or of another kind.
pub proof fn input_channel_knows_three_kinds(bytes: Seq<u8>)
    ensures
        bytes.len() > 0 && bytes[0] <= 2 ==> input_complete(bytes)
            == crate::shared::client_datagram::client_complete(bytes),
        bytes.len() == 0 || bytes[0] > 2 ==> input_complete(bytes),
        input_message(bytes) is Ok <==> bytes.len() > 0 && bytes[0] <= 2,
        bytes.len() == 0 ==> input_message(bytes) == Err::<InputMessage, WireError>(
            WireError::EmptyDatagram,
        ),
        bytes.len() > 0 && bytes[0] > 2 ==> input_message(bytes) == Err::<InputMessage, WireError>(
            WireError::DatagramType,
        ),
{
}

} // verus!
