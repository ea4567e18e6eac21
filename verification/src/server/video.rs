//! The capture that replays touches through the portal itself.
use super::pipewire::touch::TouchState;
use super::pipewire::video::{CaptureAction, CaptureSignal, CaptureState, BITRATE};
use crate::text;
use vstd::prelude::*;

verus! {

/// Where this capture stands after a signal: it does not look for a lost GPU, and one that could
/// not be set up waits for another size.
pub open spec fn plain_capture_next(state: CaptureState, signal: CaptureSignal) -> CaptureState {
    match signal {
        CaptureSignal::SetUpFailed => match state {
            CaptureState::SettingUp { .. } => CaptureState::AwaitingSize,
            _ => state,
        },
        CaptureSignal::GpuLost => state,
        _ => super::pipewire::video::capture_next(state, signal),
    }
}

/// What to do after a signal.
pub open spec fn plain_capture_action(state: CaptureState, signal: CaptureSignal) -> CaptureAction {
    match signal {
        CaptureSignal::SetUpFailed => match state {
            CaptureState::SettingUp { .. } => CaptureAction::StartOver,
            CaptureState::Finished => CaptureAction::Finish,
            _ => CaptureAction::Wait,
        },
        CaptureSignal::GpuLost => match state {
            CaptureState::Finished => CaptureAction::Finish,
            _ => CaptureAction::Wait,
        },
        _ => super::pipewire::video::capture_action(state, signal),
    }
}

/// Takes note of a signal and says what to do.
pub fn capture_step(state: &mut CaptureState, signal: CaptureSignal) -> (action: CaptureAction)
    ensures
        *final(state) == plain_capture_next(*old(state), signal),
        action == plain_capture_action(*old(state), signal),
{
    match signal {
        CaptureSignal::SetUpFailed => match *state {
            CaptureState::SettingUp { .. } => {
                *state = CaptureState::AwaitingSize;
                CaptureAction::StartOver
            },
            CaptureState::Finished => CaptureAction::Finish,
            _ => CaptureAction::Wait,
        },
        CaptureSignal::GpuLost => match *state {
            CaptureState::Finished => CaptureAction::Finish,
            _ => CaptureAction::Wait,
        },
        _ => state.step(signal),
    }
}

/// What came of the wait for a client message.
#[allow(inconsistent_fields)]
#[derive(Debug, Clone, Copy, PartialEq, Eq, Structural)]
pub enum TouchSignal {
    Touch { index: u8, x: u16, y: u16 },
    /// A finger was lifted, or all of them.
    Release { index: Option<u8> },
    /// A message that is no touch, or messages that were lost under load.
    Other,
    /// Nothing arrived for a second.
    Idle,
    /// There will be no more messages.
    Closed,
}

/// A call of the portal.
#[derive(Debug, Clone, Copy, PartialEq, Eq, Structural)]
pub enum TouchNotice {
    Down { slot: u32, x: u16, y: u16 },
    Motion { slot: u32, x: u16, y: u16 },
    Up { slot: u32 },
}

/// Every finger of the set is lifted once, in some order, and nothing else happens.
pub open spec fn lifts_slots(down: Set<u8>, notices: Seq<TouchNotice>) -> bool {
    exists|lifted: Seq<crate::server::pipewire::touch::EisTouchEvent>|
        {
            &&& #[trigger] crate::server::pipewire::touch::lifts_all(down, lifted)
            &&& notices == lifted.map_values(
                |e: crate::server::pipewire::touch::EisTouchEvent|
                    TouchNotice::Up { slot: e->Up_index as u32 },
            )
        }
}

/// What a signal leads to.
pub struct TouchReplay {
    /// The calls to make, in this order.
    pub notices: Vec<TouchNotice>,
    /// Whether to go on.
    pub go_on: bool,
}

/// Replays the touches of the client: the first event of a finger is a touch, those after
/// it are motion.
pub fn replay_touch(state: &mut TouchState, signal: TouchSignal) -> (r: TouchReplay)
    ensures
        r.go_on == !(signal is Closed),
        match signal {
            TouchSignal::Touch { index, x, y } => {
                &&& final(state)@ == old(state)@.insert(index)
                &&& r.notices@ == seq![
                    if old(state)@.contains(index) {
                        TouchNotice::Motion { slot: index as u32, x, y }
                    } else {
                        TouchNotice::Down { slot: index as u32, x, y }
                    },
                ]
            },
            TouchSignal::Release { index: Some(index) } => {
                &&& final(state)@ == old(state)@.remove(index)
                &&& r.notices@ == if old(state)@.contains(index) {
                    seq![TouchNotice::Up { slot: index as u32 }]
                } else {
                    Seq::empty()
                }
            },
            TouchSignal::Release { index: None } | TouchSignal::Idle => {
                &&& final(state)@ == Set::<u8>::empty()
                &&& lifts_slots(old(state)@, r.notices@)
            },
            TouchSignal::Other | TouchSignal::Closed => {
                &&& final(state)@ == old(state)@
                &&& r.notices@ == Seq::<TouchNotice>::empty()
            },
        },
{
    let mut notices: Vec<TouchNotice> = Vec::new();
    match signal {
        TouchSignal::Touch { index, x, y } => {
            let events = state.handle_touch(index, x, y);
            match events[0] {
                crate::server::pipewire::touch::EisTouchEvent::Down { .. } => {
                    notices.push(TouchNotice::Down { slot: index as u32, x, y });
                },
                _ => {
                    notices.push(TouchNotice::Motion { slot: index as u32, x, y });
                },
            }
            TouchReplay { notices, go_on: true }
        },
        TouchSignal::Release { index: Some(index) } => {
            if state.handle_release(index).is_some() {
                notices.push(TouchNotice::Up { slot: index as u32 });
            }
            TouchReplay { notices, go_on: true }
        },
        TouchSignal::Release { index: None } | TouchSignal::Idle => {
            let lifted = state.release_all();
            let mut i: usize = 0;
            while i < lifted.len()
                invariant
                    i <= lifted.len(),
                    notices@.len() == i,
                    forall|j: int| 0 <= j < lifted@.len() ==> (#[trigger] lifted@[j]) is Up,
                    forall|j: int|
                        0 <= j < i ==> #[trigger] notices@[j] == (TouchNotice::Up {
                            slot: lifted@[j]->Up_index as u32,
                        }),
                decreases lifted.len() - i,
            {
                if let crate::server::pipewire::touch::EisTouchEvent::Up { index } = lifted[i] {
                    notices.push(TouchNotice::Up { slot: index as u32 });
                }
                i += 1;
            }
            assert(notices@ =~= lifted@.map_values(
                |e: crate::server::pipewire::touch::EisTouchEvent|
                    TouchNotice::Up { slot: e->Up_index as u32 },
            ));
            TouchReplay { notices, go_on: true }
        },
        TouchSignal::Other => TouchReplay { notices, go_on: true },
        TouchSignal::Closed => TouchReplay { notices, go_on: false },
    }
}

/// The description of the pipeline that encodes a PipeWire node to AV1.
pub open spec fn av1_pipeline_text(fd: int, node_id: nat) -> Seq<char> {
    "pipewiresrc fd="@ + text::signed_decimal(fd) + " path="@ + text::decimal(node_id)
        + " ! videoconvert ! vaav1enc rate-control=vbr bitrate="@ + text::decimal(BITRATE as nat)
        + " target-percentage=75 ! appsink name=sink sync=false"@
}

/// The description of the pipeline that encodes a PipeWire node to AV1.
pub fn av1_pipeline_description(fd: i32, node_id: u32) -> (s: String)
    ensures
        s@ == av1_pipeline_text(fd as int, node_id as nat),
{
    let mut s = "pipewiresrc fd=".to_owned();
    text::push_signed(&mut s, fd);
    s.append(" path=");
    text::push_decimal(&mut s, node_id as u64);
    s.append(" ! videoconvert ! vaav1enc rate-control=vbr bitrate=");
    text::push_decimal(&mut s, BITRATE);
    s.append(" target-percentage=75 ! appsink name=sink sync=false");
    s
}

/// The description of the pipeline that muxes a PipeWire node into Matroska.
pub open spec fn muxed_pipeline_text(fd: int, node_id: nat) -> Seq<char> {
    "pipewiresrc fd="@ + text::signed_decimal(fd) + " path="@ + text::decimal(node_id)
        + " ! vaapipostproc ! vaav1enc ! av1parse ! matroskamux streamable=true ! appsink name=sink sync=false"@
}

/// The description of the pipeline that muxes a PipeWire node into Matroska.
pub fn muxed_pipeline_description(fd: i32, node_id: u32) -> (s: String)
    ensures
        s@ == muxed_pipeline_text(fd as int, node_id as nat),
{
    let mut s = "pipewiresrc fd=".to_owned();
    text::push_signed(&mut s, fd);
    s.append(" path=");
    text::push_decimal(&mut s, node_id as u64);
    s.append(
        " ! vaapipostproc ! vaav1enc ! av1parse ! matroskamux streamable=true ! appsink name=sink sync=false",
    );
    s
}

/// Without a way to begin anew, a failure to set up means to wait for a size again, and the loss
/// of the GPU changes nothing.
pub proof fn failed_captures_start_over(state: CaptureState)
    ensures
        plain_capture_action(state, CaptureSignal::SetUpFailed) == CaptureAction::StartOver
            <==> state is SettingUp,
        plain_capture_next(state, CaptureSignal::SetUpFailed) == (if state is SettingUp {
            CaptureState::AwaitingSize
        } else {
            state
        }),
        plain_capture_next(state, CaptureSignal::GpuLost) == state,
        plain_capture_action(state, CaptureSignal::GpuLost) == (if state is Finished {
            CaptureAction::Finish
        } else {
            CaptureAction::Wait
        }),
{
}

/// A new start comes only of another size while streaming, on the display that is captured, and
/// a set-up only of the size that was waited for.
pub proof fn only_sizes_start_captures(
    state: CaptureState,
    signal: CaptureSignal,
    to: super::pipewire::video::DisplaySize,
)
    ensures
        plain_capture_action(state, signal) == (CaptureAction::Restart { size: to }) <==> (
        state matches CaptureState::Streaming { size: from } && from.index == to.index && (
        signal matches CaptureSignal::Resize { width, height, .. } && width == to.width && height
            == to.height)),
        plain_capture_action(state, signal) == (CaptureAction::SetUp { size: to }) <==> state
            is AwaitingSize && signal == (CaptureSignal::Resize {
            width: to.width,
            height: to.height,
            index: to.index,
        }),
{
}

/// A capture ends where it is cancelled; it starts over where its client is gone while it
/// streams or where it could not be set up; else it goes where its action leads.
pub proof fn plain_captures_end_when_cancelled(state: CaptureState, signal: CaptureSignal)
    ensures
        plain_capture_action(state, signal) == CaptureAction::Finish <==> signal is Cancelled
            || state is Finished,
        plain_capture_action(state, signal) == CaptureAction::StartOver <==> (signal is ClientGone
            && state is Streaming) || (signal is SetUpFailed && state is SettingUp),
        match plain_capture_action(state, signal) {
            CaptureAction::SetUp { size } | CaptureAction::Restart { size } => plain_capture_next(
                state,
                signal,
            ) == (CaptureState::SettingUp { size }),
            CaptureAction::StartOver => plain_capture_next(state, signal)
                == CaptureState::AwaitingSize,
            CaptureAction::Finish => plain_capture_next(state, signal) == CaptureState::Finished,
            CaptureAction::Wait => if signal is SetUp && state is SettingUp {
                plain_capture_next(state, signal) == (CaptureState::Streaming {
                    size: state->SettingUp_size,
                })
            } else {
                plain_capture_next(state, signal) == state
            },
        },
{
}

/// All fingers that are down are lifted, each once, and no other is.
pub proof fn every_finger_is_lifted_once(down: Set<u8>, notices: Seq<TouchNotice>)
    requires
        lifts_slots(down, notices),
    ensures
        forall|i: int|
            0 <= i < notices.len() ==> (#[trigger] notices[i] matches TouchNotice::Up { slot } && slot
                < 256 && down.contains(slot as u8)),
        forall|i: int, j: int|
            0 <= i < j < notices.len() ==> #[trigger] notices[i] != #[trigger] notices[j],
        forall|index: u8| #[trigger]
            down.contains(index) ==> notices.contains(TouchNotice::Up { slot: index as u32 }),
{
    let lifted = choose|lifted: Seq<crate::server::pipewire::touch::EisTouchEvent>|
        {
            &&& #[trigger] crate::server::pipewire::touch::lifts_all(down, lifted)
            &&& notices == lifted.map_values(
                |e: crate::server::pipewire::touch::EisTouchEvent|
                    TouchNotice::Up { slot: e->Up_index as u32 },
            )
        };
    assert forall|i: int| 0 <= i < notices.len() implies (
    #[trigger] notices[i] matches TouchNotice::Up { slot } && slot < 256 && down.contains(
        slot as u8,
    )) by {
        assert(lifted[i] is Up);
    }
    assert forall|i: int, j: int| 0 <= i < j < notices.len() implies #[trigger] notices[i]
        != #[trigger] notices[j] by {
        assert(lifted[i]->Up_index != lifted[j]->Up_index);
    }
    assert forall|index: u8| #[trigger] down.contains(index) implies notices.contains(
        TouchNotice::Up { slot: index as u32 },
    ) by {
        let e = crate::server::pipewire::touch::EisTouchEvent::Up { index };
        let i = choose|i: int| 0 <= i < lifted.len() && lifted[i] == e;
        assert(notices[i] == (TouchNotice::Up { slot: index as u32 }));
    }
}

} // verus!
