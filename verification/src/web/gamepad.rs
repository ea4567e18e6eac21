//! Gamepads in the browser: snapshots are sent when something changed.
use vstd::prelude::*;

verus! {

/// The most gamepads that are forwarded.
pub const MAX_GAMEPADS: usize = 4;

/// A reading of a gamepad, in the orientation of the browser.
#[derive(Debug, Clone, Copy, PartialEq, Eq, Structural)]
pub struct PadReading {
    pub buttons: u32,
    pub lx: i16,
    pub ly: i16,
    pub rx: i16,
    pub ry: i16,
    pub lt: i16,
    pub rt: i16,
}

/// What the server was last told of a gamepad.
#[derive(Debug, Clone, Copy, PartialEq, Eq, Structural)]
pub struct PadState {
    pub connected: bool,
    pub buttons: u32,
    pub lx: i16,
    pub ly: i16,
    pub rx: i16,
    pub ry: i16,
    pub lt: i16,
    pub rt: i16,
}

/// What to tell the server.
#[derive(Debug, Clone, Copy, PartialEq, Eq, Structural)]
pub enum PadMessage {
    Nothing,
    /// The gamepad is gone.
    Disconnect,
    /// The gamepad is in this state.
    Snapshot(PadState),
}

/// A gamepad that is not there.
pub open spec fn no_pad() -> PadState {
    PadState { connected: false, buttons: 0, lx: 0, ly: 0, rx: 0, ry: 0, lt: 0, rt: 0 }
}

/// The state that a reading tells: the vertical axes are turned round.
pub open spec fn pad_of(r: PadReading) -> PadState {
    PadState {
        connected: true,
        buttons: r.buttons,
        lx: r.lx,
        ly: (-r.ly) as i16,
        rx: r.rx,
        ry: (-r.ry) as i16,
        lt: r.lt,
        rt: r.rt,
    }
}

impl PadState {
    /// A gamepad that is not there.
    pub fn new() -> (s: PadState)
        ensures
            s == no_pad(),
    {
        PadState { connected: false, buttons: 0, lx: 0, ly: 0, rx: 0, ry: 0, lt: 0, rt: 0 }
    }

    /// Looks at a gamepad; says what to tell the server. It is told what changed, and
    /// nothing else.
    pub fn poll(&mut self, reading: Option<PadReading>) -> (m: PadMessage)
        requires
            reading matches Some(r) ==> r.ly > i16::MIN && r.ry > i16::MIN,
        ensures
            match reading {
                None => {
                    &&& m == if old(self).connected {
                        PadMessage::Disconnect
                    } else {
                        PadMessage::Nothing
                    }
                    &&& *final(self) == if old(self).connected {
                        no_pad()
                    } else {
                        *old(self)
                    }
                },
                Some(r) => {
                    &&& *final(self) == pad_of(r)
                    &&& m == if *old(self) == pad_of(r) {
                        PadMessage::Nothing
                    } else {
                        PadMessage::Snapshot(pad_of(r))
                    }
                },
            },
    {
        match reading {
            None => {
                if self.connected {
                    *self = PadState::new();
                    PadMessage::Disconnect
                } else {
                    PadMessage::Nothing
                }
            },
            Some(r) => {
                let now = PadState {
                    connected: true,
                    buttons: r.buttons,
                    lx: r.lx,
                    ly: -r.ly,
                    rx: r.rx,
                    ry: -r.ry,
                    lt: r.lt,
                    rt: r.rt,
                };
                if *self == now {
                    PadMessage::Nothing
                } else {
                    *self = now;
                    PadMessage::Snapshot(now)
                }
            },
        }
    }
}

/// Whether bit `i` of a mask is set.
pub open spec fn bit(mask: u32, i: int) -> bool {
    (mask >> (i as u32)) & 1 == 1
}

/// The mask of the buttons that are pressed, of the first `limit` ones: bit `i` stands for
/// button `i`.
pub fn buttons_mask(pressed: &[bool], limit: usize) -> (mask: u32)
    requires
        limit <= 32,
    ensures
        forall|i: int|
            0 <= i < 32 ==> #[trigger] bit(mask, i) == (i < limit && i < pressed@.len()
                && pressed@[i]),
{
    let count: usize = if pressed.len() < limit { pressed.len() } else { limit };
    let mut mask: u32 = 0;
    let mut i: usize = 0;
    assert forall|j: int| 0 <= j < 32 implies !(#[trigger] bit(0, j)) by {
        let k = j as u32;
        assert((0u32 >> k) & 1 == 0) by (bit_vector);
    }
    while i < count
        invariant
            i <= count,
            count <= 32,
            count <= pressed@.len(),
            forall|j: int| 0 <= j < 32 ==> #[trigger] bit(mask, j) == (j < i && pressed@[j]),
        decreases count - i,
    {
        if pressed[i] {
            let ghost before = mask;
            let n: u32 = i as u32;
            mask = mask | (1u32 << n);
            assert forall|j: int| 0 <= j < 32 implies #[trigger] bit(mask, j) == (bit(before, j)
                || j == i) by {
                let k = j as u32;
                assert(((before | (1u32 << n)) >> k) & 1 == (if k == n {
                    1
                } else {
                    (before >> k) & 1
                })) by (bit_vector)
                    requires
                        k < 32,
                        n < 32,
                ;
                assert((before >> k) & 1 == 0 || (before >> k) & 1 == 1) by (bit_vector);
            }
        }
        i += 1;
    }
    mask
}

/// A pad is taken as it is read, but that both sticks point up where the browser counts down: what
/// is sent and what was read are opposite along y and the same in all else.
pub proof fn sticks_are_turned_over(r: PadReading)
    requires
        r.ly > i16::MIN,
        r.ry > i16::MIN,
    ensures
        ({
            let p = pad_of(r);
            &&& p.connected
            &&& p.buttons == r.buttons
            &&& p.lx == r.lx
            &&& p.ly + r.ly == 0
            &&& p.rx == r.rx
            &&& p.ry + r.ry == 0
            &&& p.lt == r.lt
            &&& p.rt == r.rt
        }),
{
}

/// A pad that is gone is not connected, has nothing pressed and all sticks at rest; none that is
/// there is taken for it.
pub proof fn missing_pads_rest(r: PadReading)
    ensures
        !no_pad().connected,
        no_pad().buttons == 0,
        no_pad().lx == 0 && no_pad().ly == 0 && no_pad().rx == 0 && no_pad().ry == 0,
        no_pad().lt == 0 && no_pad().rt == 0,
        pad_of(r) != no_pad(),
{
}

/// The buttons are the binary digits of the mask, the first button the lowest one.
pub proof fn buttons_are_binary_digits(mask: u32, i: int)
    requires
        0 <= i < 31,
    ensures
        bit(mask, 0) <==> mask % 2 == 1,
        bit(mask, i + 1) <==> bit(mask / 2, i),
{
    let n = i as u32;
    let k = (i + 1) as u32;
    assert((mask >> 0u32) & 1 == mask % 2) by (bit_vector);
    assert((mask >> k) & 1 == ((mask / 2) >> n) & 1) by (bit_vector)
        requires
            n < 31,
            k == n + 1,
    ;
}

} // verus!
