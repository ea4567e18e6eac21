//! Screen capture: the size that is captured, the source that is asked for, the pipeline
//! that encodes it, and when it starts anew.
use crate::shared::codec::{select_codec, Codec};
use crate::text;
use vstd::prelude::*;

verus! {

/// An encoded frame.
pub struct EncodedFrame {
    pub data: Vec<u8>,
    pub is_keyframe: bool,
    pub codec: Codec,
}

// ----- the virtual monitor

/// Whether the desktop is KDE, as its name says.
pub open spec fn desktop_is_kde(desktop: Option<Seq<char>>) -> bool {
    desktop matches Some(d) && text::occurs(text::ascii_lowercase(d), "kde"@)
}

/// Whether the compositor is KWin, going by the name of the desktop.
pub fn is_kwin(desktop: Option<&str>) -> (r: bool)
    ensures
        r == desktop_is_kde(
            match desktop {
                Some(d) => Some(d@),
                None => None,
            },
        ),
{
    match desktop {
        Some(d) => {
            let lower = text::to_ascii_lowercase(d);
            text::contains(lower.as_str(), "kde")
        },
        None => false,
    }
}

/// Who provides the monitor that is captured.
#[derive(Debug, Clone, Copy, PartialEq, Eq, Structural)]
pub enum MonitorKind {
    /// A program of our own; to the compositor it is a monitor like any other.
    ChildProcess,
    /// The desktop portal.
    Portal,
}

/// How the start of that program went.
#[derive(Debug, Clone, Copy, PartialEq, Eq, Structural)]
pub enum SpawnOutcome {
    Started,
    NotFound,
    Failed,
}

/// What to ask the portal for.
#[derive(Debug, Clone, Copy, PartialEq, Eq, Structural)]
pub enum SourceKind {
    Monitor,
    Virtual,
}

/// Who provides the monitor: on KWin a program of our own where there is one, and nobody
/// where it cannot be started; elsewhere the portal.
pub fn monitor_kind(kwin: bool, outcome: SpawnOutcome) -> (r: Option<MonitorKind>)
    ensures
        r == (if !kwin {
            Some(MonitorKind::Portal)
        } else {
            match outcome {
                SpawnOutcome::Started => Some(MonitorKind::ChildProcess),
                SpawnOutcome::NotFound => Some(MonitorKind::Portal),
                SpawnOutcome::Failed => None,
            }
        }),
        r == Some(MonitorKind::ChildProcess) <==> kwin && outcome is Started,
        r is None <==> kwin && outcome is Failed,
{
    if !kwin {
        return Some(MonitorKind::Portal);
    }
    match outcome {
        SpawnOutcome::Started => Some(MonitorKind::ChildProcess),
        SpawnOutcome::NotFound => Some(MonitorKind::Portal),
        SpawnOutcome::Failed => None,
    }
}

/// What to ask the portal for: a virtual source only where there is no monitor of our own.
pub fn source_kind(monitor: MonitorKind) -> (r: SourceKind)
    ensures
        r == (match monitor {
            MonitorKind::ChildProcess => SourceKind::Monitor,
            MonitorKind::Portal => SourceKind::Virtual,
        }),
        r is Virtual <==> monitor is Portal,
{
    match monitor {
        MonitorKind::ChildProcess => SourceKind::Monitor,
        MonitorKind::Portal => SourceKind::Virtual,
    }
}

/// The arguments of the program that provides a virtual monitor.
pub open spec fn monitor_args(width: u16, height: u16, index: u8) -> Seq<Seq<char>> {
    seq![
        "--resolution"@,
        text::decimal(width as nat) + "x"@ + text::decimal(height as nat),
        "--name"@,
        "webshooter-"@ + text::decimal(index as nat),
        "--password"@,
        "x"@,
        "--port"@,
        "-1"@,
    ]
}

/// The arguments of the program that provides a virtual monitor.
pub fn monitor_arguments(width: u16, height: u16, index: u8) -> (r: Vec<String>)
    ensures
        text::views(r@) == monitor_args(width, height, index),
{
    let mut r: Vec<String> = Vec::new();
    let mut resolution = text::decimal_string(width as u64);
    resolution.append("x");
    text::push_decimal(&mut resolution, height as u64);
    let mut name = "webshooter-".to_owned();
    text::push_decimal(&mut name, index as u64);
    r.push("--resolution".to_owned());
    r.push(resolution);
    r.push("--name".to_owned());
    r.push(name);
    r.push("--password".to_owned());
    r.push("x".to_owned());
    r.push("--port".to_owned());
    r.push("-1".to_owned());
    assert(text::views(r@) =~= monitor_args(width, height, index));
    r
}

// ----- the stream

/// The 16 low bits of a number without its sign.
pub open spec fn low_abs(n: int) -> int {
    (if n < 0 {
        -n
    } else {
        n
    }) % 65536
}

/// Whether a stream has this size.
pub open spec fn has_size(stream: Option<(i32, i32)>, width: u16, height: u16) -> bool {
    stream matches Some((w, h)) && width == low_abs(w as int) && height == low_abs(h as int)
}

/// Whether a stream has this size.
pub fn sized_stream(stream: Option<(i32, i32)>, width: u16, height: u16) -> (r: bool)
    ensures
        r == has_size(stream, width, height),
{
    match stream {
        Some((w, h)) => {
            let w: i64 = w as i64;
            let h: i64 = h as i64;
            let w: u64 = if w < 0 { (-w) as u64 } else { w as u64 };
            let h: u64 = if h < 0 { (-h) as u64 } else { h as u64 };
            w % 65536 == width as u64 && h % 65536 == height as u64
        },
        None => false,
    }
}

/// The last of the streams that has this size.
pub fn pick_stream(streams: &[Option<(i32, i32)>], width: u16, height: u16) -> (r: Option<usize>)
    ensures
        match r {
            Some(i) => {
                &&& i < streams@.len()
                &&& has_size(streams@[i as int], width, height)
                &&& forall|j: int|
                    i < j < streams@.len() ==> !has_size(#[trigger] streams@[j], width, height)
            },
            None => forall|j: int|
                0 <= j < streams@.len() ==> !has_size(#[trigger] streams@[j], width, height),
        },
{
    let mut n: usize = streams.len();
    while n > 0
        invariant
            n <= streams@.len(),
            forall|j: int|
                n <= j < streams@.len() ==> !has_size(#[trigger] streams@[j], width, height),
        decreases n,
    {
        n -= 1;
        if sized_stream(streams[n], width, height) {
            return Some(n);
        }
    }
    None
}

/// What is wrong when the portal offers no stream of the wanted size.
pub fn no_stream_message(width: u16, height: u16) -> (s: String)
    ensures
        s@ == "no stream at "@ + text::decimal(width as nat) + "x"@ + text::decimal(height as nat)
            + " from portal start"@,
{
    let mut s = "no stream at ".to_owned();
    text::push_decimal(&mut s, width as u64);
    s.append("x");
    text::push_decimal(&mut s, height as u64);
    s.append(" from portal start");
    s
}

// ----- the pipeline

/// The bitrate of the video, in kilobits per second.
pub const BITRATE: u64 = 7000;

/// The codec for a client: the best that it decodes.
pub fn capture_codec(decoders: &Option<Vec<Codec>>) -> (codec: Codec)
    ensures
        crate::shared::codec::is_best_codec(
            match *decoders {
                Some(v) => v@,
                None => Seq::empty(),
            },
            codec,
        ),
{
    match decoders {
        Some(v) => select_codec(v.as_slice()),
        None => {
            let none: Vec<Codec> = Vec::new();
            select_codec(none.as_slice())
        },
    }
}

/// The description of the pipeline that encodes a PipeWire node.
pub open spec fn pipeline_text(fd: int, node_id: nat, encoder: Seq<char>) -> Seq<char> {
    "pipewiresrc fd="@ + text::signed_decimal(fd) + " path="@ + text::decimal(node_id)
        + " ! videoconvert ! "@ + encoder + " name=enc rate-control=vbr bitrate="@ + text::decimal(
        BITRATE as nat,
    ) + " target-percentage=75 ! appsink name=sink sync=false"@
}

/// The description of the pipeline that encodes a PipeWire node.
pub fn pipeline_description(fd: i32, node_id: u32, codec: Codec) -> (s: String)
    ensures
        s@ == pipeline_text(
            fd as int,
            node_id as nat,
            crate::shared::codec::encoder_element(codec),
        ),
{
    let mut s = "pipewiresrc fd=".to_owned();
    text::push_signed(&mut s, fd);
    s.append(" path=");
    text::push_decimal(&mut s, node_id as u64);
    s.append(" ! videoconvert ! ");
    s.append(codec.gst_encoder_element());
    s.append(" name=enc rate-control=vbr bitrate=");
    text::push_decimal(&mut s, BITRATE);
    s.append(" target-percentage=75 ! appsink name=sink sync=false");
    s
}

/// Whether a pipeline error means that the GPU context is lost, going by its words.
pub open spec fn tells_gpu_loss(message: Seq<char>) -> bool {
    ||| text::occurs(message, "context"@) && text::occurs(message, "lost"@)
    ||| text::occurs(message, "hard recovery"@)
    ||| text::occurs(message, "context is lost"@)
    ||| text::occurs(message, "GPU"@)
    ||| text::occurs(message, "vaapi"@)
    ||| text::occurs(message, "amf"@)
}

/// Whether a pipeline error means that the GPU context is lost.
pub fn is_gpu_loss(message: &str) -> (r: bool)
    ensures
        r == tells_gpu_loss(message@),
{
    text::contains(message, "context") && text::contains(message, "lost") || text::contains(
        message,
        "hard recovery",
    ) || text::contains(message, "context is lost") || text::contains(message, "GPU")
        || text::contains(message, "vaapi") || text::contains(message, "amf")
}

/// What the bus of the pipeline reports.
pub enum BusMessage {
    EndOfStream,
    /// An error, in words.
    Error(String),
    Other,
}

/// What comes of a report.
#[derive(Debug, Clone, Copy, PartialEq, Eq, Structural)]
pub struct BusVerdict {
    /// The pipeline is at its end.
    pub stop: bool,
    /// The capture should start anew with the same size.
    pub restart: bool,
}

/// Decides about a report of the bus.
pub fn bus_verdict(message: &BusMessage) -> (r: BusVerdict)
    ensures
        r == (match *message {
            BusMessage::EndOfStream => BusVerdict { stop: true, restart: false },
            BusMessage::Error(words) => BusVerdict { stop: true, restart: tells_gpu_loss(words@) },
            BusMessage::Other => BusVerdict { stop: false, restart: false },
        }),
        r.stop <==> message !is Other,
        r.restart ==> message is Error,
{
    match message {
        BusMessage::EndOfStream => BusVerdict { stop: true, restart: false },
        BusMessage::Error(words) => BusVerdict { stop: true, restart: is_gpu_loss(words.as_str()) },
        BusMessage::Other => BusVerdict { stop: false, restart: false },
    }
}

/// What the task that asks for keyframes has to deal with.
#[derive(Debug, Clone, Copy, PartialEq, Eq, Structural)]
pub enum KeyframeSignal {
    Cancelled,
    /// The client lost a frame.
    Requested,
    OtherMessage,
    ClientGone,
    /// Two seconds have gone by.
    Tick,
}

/// What the task does.
#[derive(Debug, Clone, Copy, PartialEq, Eq, Structural)]
pub enum KeyframeStep {
    Force,
    Wait,
    Stop,
}

/// Decides about keyframes: one whenever the client asks and every two seconds anyway, so
/// that a lost frame does not spoil the picture for longer.
pub fn keyframe_step(signal: KeyframeSignal) -> (r: KeyframeStep)
    ensures
        r == (match signal {
            KeyframeSignal::Requested | KeyframeSignal::Tick => KeyframeStep::Force,
            KeyframeSignal::OtherMessage => KeyframeStep::Wait,
            KeyframeSignal::Cancelled | KeyframeSignal::ClientGone => KeyframeStep::Stop,
        }),
        r is Force <==> signal is Requested || signal is Tick,
        r is Stop <==> signal is Cancelled || signal is ClientGone,
{
    match signal {
        KeyframeSignal::Requested | KeyframeSignal::Tick => KeyframeStep::Force,
        KeyframeSignal::OtherMessage => KeyframeStep::Wait,
        KeyframeSignal::Cancelled | KeyframeSignal::ClientGone => KeyframeStep::Stop,
    }
}

// ----- the course of a capture

/// The size of the captured display, and its number.
#[derive(Debug, Clone, Copy, PartialEq, Eq, Structural)]
pub struct DisplaySize {
    pub width: u16,
    pub height: u16,
    pub index: u8,
}

/// Where a capture stands.
#[derive(Debug, Clone, Copy, PartialEq, Eq, Structural)]
pub enum CaptureState {
    /// The client has not said how large its display is.
    AwaitingSize,
    /// The monitor, the portal session and the pipeline are being set up.
    SettingUp { size: DisplaySize },
    /// Frames are coming.
    Streaming { size: DisplaySize },
    /// The capture is over.
    Finished,
}

/// What a capture has to deal with.
#[derive(Debug, Clone, Copy, PartialEq, Eq, Structural)]
pub enum CaptureSignal {
    /// The session is over.
    Cancelled,
    /// The client's display has this size now.
    Resize { width: u16, height: u16, index: u8 },
    /// Any other message of the client.
    OtherMessage,
    /// Messages of the client were lost or will not come any more.
    ClientGone,
    /// Everything is set up.
    SetUp,
    /// Something could not be set up.
    SetUpFailed,
    /// The GPU lost its context.
    GpuLost,
}

/// What to do next.
#[derive(Debug, Clone, Copy, PartialEq, Eq, Structural)]
pub enum CaptureAction {
    /// Wait for the next signal.
    Wait,
    /// Set everything up for this size.
    SetUp { size: DisplaySize },
    /// Take everything down, then set it up again for this size.
    Restart { size: DisplaySize },
    /// Take everything down, then wait for a size.
    StartOver,
    /// Take everything down; the capture is over.
    Finish,
}

/// Where a capture stands after a signal.
pub open spec fn capture_next(state: CaptureState, signal: CaptureSignal) -> CaptureState {
    match state {
        CaptureState::Finished => CaptureState::Finished,
        CaptureState::AwaitingSize => match signal {
            CaptureSignal::Cancelled => CaptureState::Finished,
            CaptureSignal::Resize { width, height, index } => CaptureState::SettingUp {
                size: DisplaySize { width, height, index },
            },
            _ => state,
        },
        CaptureState::SettingUp { size } => match signal {
            CaptureSignal::Cancelled => CaptureState::Finished,
            CaptureSignal::SetUp => CaptureState::Streaming { size },
            _ => state,
        },
        CaptureState::Streaming { size } => match signal {
            CaptureSignal::Cancelled => CaptureState::Finished,
            CaptureSignal::Resize { width, height, index } => CaptureState::SettingUp {
                size: DisplaySize { width, height, index: size.index },
            },
            CaptureSignal::GpuLost => CaptureState::SettingUp { size },
            CaptureSignal::ClientGone => CaptureState::AwaitingSize,
            _ => state,
        },
    }
}

/// What to do after a signal.
pub open spec fn capture_action(state: CaptureState, signal: CaptureSignal) -> CaptureAction {
    match state {
        CaptureState::Finished => CaptureAction::Finish,
        CaptureState::AwaitingSize => match signal {
            CaptureSignal::Cancelled => CaptureAction::Finish,
            CaptureSignal::Resize { width, height, index } => CaptureAction::SetUp {
                size: DisplaySize { width, height, index },
            },
            _ => CaptureAction::Wait,
        },
        CaptureState::SettingUp { size } => match signal {
            CaptureSignal::Cancelled => CaptureAction::Finish,
            CaptureSignal::SetUpFailed => CaptureAction::Restart { size },
            _ => CaptureAction::Wait,
        },
        CaptureState::Streaming { size } => match signal {
            CaptureSignal::Cancelled => CaptureAction::Finish,
            CaptureSignal::Resize { width, height, index } => CaptureAction::Restart {
                size: DisplaySize { width, height, index: size.index },
            },
            CaptureSignal::GpuLost => CaptureAction::Restart { size },
            CaptureSignal::ClientGone => CaptureAction::StartOver,
            _ => CaptureAction::Wait,
        },
    }
}

impl CaptureState {
    /// Takes note of a signal and says what to do.
    pub fn step(&mut self, signal: CaptureSignal) -> (action: CaptureAction)
        ensures
            *final(self) == capture_next(*old(self), signal),
            action == capture_action(*old(self), signal),
    {
        match *self {
            CaptureState::Finished => CaptureAction::Finish,
            CaptureState::AwaitingSize => match signal {
                CaptureSignal::Cancelled => {
                    *self = CaptureState::Finished;
                    CaptureAction::Finish
                },
                CaptureSignal::Resize { width, height, index } => {
                    let size = DisplaySize { width, height, index };
                    *self = CaptureState::SettingUp { size };
                    CaptureAction::SetUp { size }
                },
                _ => CaptureAction::Wait,
            },
            CaptureState::SettingUp { size } => match signal {
                CaptureSignal::Cancelled => {
                    *self = CaptureState::Finished;
                    CaptureAction::Finish
                },
                CaptureSignal::SetUp => {
                    *self = CaptureState::Streaming { size };
                    CaptureAction::Wait
                },
                CaptureSignal::SetUpFailed => CaptureAction::Restart { size },
                _ => CaptureAction::Wait,
            },
            CaptureState::Streaming { size } => match signal {
                CaptureSignal::Cancelled => {
                    *self = CaptureState::Finished;
                    CaptureAction::Finish
                },
                CaptureSignal::Resize { width, height, index: _ } => {
                    let size = DisplaySize { width, height, index: size.index };
                    *self = CaptureState::SettingUp { size };
                    CaptureAction::Restart { size }
                },
                CaptureSignal::GpuLost => {
                    *self = CaptureState::SettingUp { size };
                    CaptureAction::Restart { size }
                },
                CaptureSignal::ClientGone => {
                    *self = CaptureState::AwaitingSize;
                    CaptureAction::StartOver
                },
                _ => CaptureAction::Wait,
            },
        }
    }
}

/// The size that a capture works with.
pub open spec fn current_size(state: CaptureState) -> Option<DisplaySize> {
    match state {
        CaptureState::SettingUp { size } => Some(size),
        CaptureState::Streaming { size } => Some(size),
        _ => None,
    }
}

/// Where a capture stands after a row of signals.
pub open spec fn capture_after(state: CaptureState, signals: Seq<CaptureSignal>) -> CaptureState
    decreases signals.len(),
{
    if signals.len() == 0 {
        state
    } else {
        capture_next(capture_after(state, signals.drop_last()), signals.last())
    }
}

/// A capture that failed to set up, or lost the GPU, goes on with the size that it had: it
/// does not wait for another one.
pub proof fn failures_keep_the_size(state: CaptureState, signal: CaptureSignal)
    requires
        current_size(state) is Some,
        signal is SetUpFailed || signal is GpuLost || signal is SetUp || signal is OtherMessage,
    ensures
        current_size(capture_next(state, signal)) == current_size(state),
{
}

/// Resizing never changes the number of the display: as long as the client is there, a
/// capture keeps the number that it began with.
pub proof fn display_number_is_kept(state: CaptureState, signals: Seq<CaptureSignal>)
    requires
        current_size(state) is Some,
        !signals.contains(CaptureSignal::ClientGone),
    ensures
        current_size(capture_after(state, signals)) matches Some(size) ==> size.index
            == current_size(state)->0.index,
        capture_after(state, signals) is Finished || current_size(capture_after(state, signals))
            is Some,
    decreases signals.len(),
{
    if signals.len() > 0 {
        let before = signals.drop_last();
        assert(!before.contains(CaptureSignal::ClientGone)) by {
            if before.contains(CaptureSignal::ClientGone) {
                let i = choose|i: int|
                    0 <= i < before.len() && before[i] == CaptureSignal::ClientGone;
                assert(signals[i] == CaptureSignal::ClientGone);
            }
        }
        assert(signals[signals.len() - 1] == signals.last());
        display_number_is_kept(state, before);
    }
}

/// A cancelled capture is over, whatever state it was in, and stays over.
pub proof fn cancelled_captures_stay_over(state: CaptureState, signals: Seq<CaptureSignal>)
    requires
        signals.contains(CaptureSignal::Cancelled),
    ensures
        capture_after(state, signals) == CaptureState::Finished,
    decreases signals.len(),
{
    let before = signals.drop_last();
    if signals.last() != CaptureSignal::Cancelled {
        let i = choose|i: int| 0 <= i < signals.len() && signals[i] == CaptureSignal::Cancelled;
        assert(before[i] == CaptureSignal::Cancelled);
        cancelled_captures_stay_over(state, before);
    }
}

/// A capture that streams goes on streaming and is left alone, whatever comes, but for four
/// signals: that it is cancelled, another size, the loss of the GPU and the client's going.
pub proof fn streams_go_on(size: DisplaySize, signal: CaptureSignal)
    ensures
        capture_action(CaptureState::Streaming { size }, signal) == CaptureAction::Wait <==> !(
        signal is Cancelled || signal is Resize || signal is GpuLost || signal is ClientGone),
        capture_next(CaptureState::Streaming { size }, signal) == (CaptureState::Streaming { size })
            <==> !(signal is Cancelled || signal is Resize || signal is GpuLost
            || signal is ClientGone),
{
}

/// A new start is asked for after another size or the loss of the GPU while streaming, and after
/// a failure while setting up; never else. It is for the size that was asked for last, on the
/// display that the capture has.
pub proof fn restarts_have_a_reason(state: CaptureState, signal: CaptureSignal, to: DisplaySize)
    ensures
        capture_action(state, signal) == (CaptureAction::Restart { size: to }) <==> {
            ||| signal is GpuLost && state == (CaptureState::Streaming { size: to })
            ||| signal is SetUpFailed && state == (CaptureState::SettingUp { size: to })
            ||| (state matches CaptureState::Streaming { size: from } && from.index == to.index && (
            signal matches CaptureSignal::Resize { width, height, .. } && width == to.width
                && height == to.height))
        },
{
}

/// A capture is set up once a size comes, for exactly this size and display, and only where it
/// waited for one.
pub proof fn sizes_set_up_captures(state: CaptureState, signal: CaptureSignal, to: DisplaySize)
    ensures
        capture_action(state, signal) == (CaptureAction::SetUp { size: to }) <==> state
            is AwaitingSize && signal == (CaptureSignal::Resize {
            width: to.width,
            height: to.height,
            index: to.index,
        }),
{
}

/// A capture ends where it is cancelled and has nothing to do after that; it starts over where
/// the client of a stream is gone.
pub proof fn captures_end_when_cancelled(state: CaptureState, signal: CaptureSignal)
    ensures
        capture_action(state, signal) == CaptureAction::Finish <==> signal is Cancelled || state
            is Finished,
        capture_action(state, signal) == CaptureAction::StartOver <==> signal is ClientGone && state
            is Streaming,
{
}

/// What is asked for decides where a capture stands then: one that is set up or started again
/// is setting up for that size, one that starts over waits for a size, one that is to finish is
/// finished, and one that is left alone stays as it is, but that it streams once it is set up.
pub proof fn actions_lead_on(state: CaptureState, signal: CaptureSignal)
    ensures
        match capture_action(state, signal) {
            CaptureAction::SetUp { size } | CaptureAction::Restart { size } => capture_next(
                state,
                signal,
            ) == (CaptureState::SettingUp { size }),
            CaptureAction::StartOver => capture_next(state, signal) == CaptureState::AwaitingSize,
            CaptureAction::Finish => capture_next(state, signal) == CaptureState::Finished,
            CaptureAction::Wait => if signal is SetUp && state is SettingUp {
                capture_next(state, signal) == (CaptureState::Streaming {
                    size: state->SettingUp_size,
                })
            } else {
                capture_next(state, signal) == state
            },
        },
{
}

/// A stream has a size where it has this width and height; the sign of what is reported does not
/// count, and a stream without a size has none.
pub proof fn streams_have_their_size(w: i32, h: i32, width: u16, height: u16)
    ensures
        0 <= w <= 65535 && 0 <= h <= 65535 ==> (has_size(Some((w, h)), width, height) <==> w
            == width && h == height),
        w > i32::MIN ==> has_size(Some(((-w) as i32, h)), width, height) == has_size(
            Some((w, h)),
            width,
            height,
        ),
        h > i32::MIN ==> has_size(Some((w, (-h) as i32)), width, height) == has_size(
            Some((w, h)),
            width,
            height,
        ),
        !has_size(None, width, height),
{
}

/// A monitor is started with four options, each before its value: width and height with an `x`
/// between, a name with the display's number, a password and a port.
pub proof fn monitors_are_started_with_options(width: u16, height: u16, index: u8)
    ensures
        ({
            let args = monitor_args(width, height, index);
            &&& args.len() == 8
            &&& args[0] == "--resolution"@
            &&& text::cut(args[1], 'x') == Some(
                (text::decimal(width as nat), text::decimal(height as nat)),
            )
            &&& args[2] == "--name"@
            &&& text::after_prefix(args[3], "webshooter-"@) == Some(text::decimal(index as nat))
            &&& args[4] == "--password"@
            &&& args[5] == seq!['x']
            &&& args[6] == "--port"@
            &&& args[7] == seq!['-', '1']
        }),
{
    reveal_strlit("x");
    reveal_strlit("-1");
    assert("x"@ =~= seq!['x']);
    assert("-1"@ =~= seq!['-', '1']);
    let w = text::decimal(width as nat);
    let h = text::decimal(height as nat);
    text::decimal_digits(width as nat);
    assert(!w.contains('x')) by {
        if w.contains('x') {
            let k = choose|k: int| 0 <= k < w.len() && w[k] == 'x';
            assert(text::is_digit(w[k]));
        }
    }
    text::texts_are_cut_at_the_first(w + "x"@ + h, 'x', w, h);
    text::parts_are_found(Seq::empty(), "webshooter-"@, text::decimal(index as nat));
}

/// The loss of a GPU is told by one of four words, wherever it stands.
pub proof fn gpu_losses_are_told_by_words(a: Seq<char>, b: Seq<char>)
    ensures
        tells_gpu_loss(a + "hard recovery"@ + b),
        tells_gpu_loss(a + "GPU"@ + b),
        tells_gpu_loss(a + "vaapi"@ + b),
        tells_gpu_loss(a + "amf"@ + b),
{
    text::parts_are_found(a, "hard recovery"@, b);
    text::parts_are_found(a, "GPU"@, b);
    text::parts_are_found(a, "vaapi"@, b);
    text::parts_are_found(a, "amf"@, b);
}

/// It is told as well by the words of a lost context, in either order.
pub proof fn lost_contexts_tell_gpu_losses(a: Seq<char>, b: Seq<char>, c: Seq<char>)
    ensures
        tells_gpu_loss(a + "context"@ + b + "lost"@ + c),
        tells_gpu_loss(a + "lost"@ + b + "context"@ + c),
{
    two_parts_are_found(a, "context"@, b, "lost"@, c);
    two_parts_are_found(a, "lost"@, b, "context"@, c);
}

proof fn two_parts_are_found(
    a: Seq<char>,
    first: Seq<char>,
    b: Seq<char>,
    second: Seq<char>,
    c: Seq<char>,
)
    ensures
        text::occurs(a + first + b + second + c, first),
        text::occurs(a + first + b + second + c, second),
{
    text::parts_are_found(a, first, b + second + c);
    assert(a + first + b + second + c =~= a + first + (b + second + c));
    text::parts_are_found(a + first + b, second, c);
}

/// It is told by nothing else.
pub proof fn nothing_else_tells_gpu_losses(message: Seq<char>)
    requires
        tells_gpu_loss(message),
    ensures
        text::occurs(message, "hard recovery"@) || text::occurs(message, "GPU"@) || text::occurs(
            message,
            "vaapi"@,
        ) || text::occurs(message, "amf"@) || (text::occurs(message, "context"@) && text::occurs(
            message,
            "lost"@,
        )),
{
    if text::occurs(message, "context is lost"@) {
        reveal_strlit("context is lost");
        reveal_strlit("context");
        reveal_strlit("lost");
        text::found_parts_are_there(message, "context is lost"@);
        let (a, b) = choose|a: Seq<char>, b: Seq<char>|
            message == #[trigger] (a + "context is lost"@ + b);
        let middle = seq![' ', 'i', 's', ' '];
        assert("context is lost"@ =~= "context"@ + middle + "lost"@);
        assert(message =~= a + "context"@ + middle + "lost"@ + b);
        two_parts_are_found(a, "context"@, middle, "lost"@, b);
    }
}

/// A desktop is KDE where its name holds these three letters, small or capital, anywhere.
pub proof fn kde_is_known_in_any_case(a: Seq<char>, name: Seq<char>, b: Seq<char>)
    requires
        name.len() == 3,
        name[0] == 'k' || name[0] == 'K',
        name[1] == 'd' || name[1] == 'D',
        name[2] == 'e' || name[2] == 'E',
    ensures
        desktop_is_kde(Some(a + name + b)),
        !desktop_is_kde(None),
        !desktop_is_kde(Some(name.take(2))),
{
    reveal_strlit("kde");
    text::lower_case_is_32_above('k', a, name);
    text::lower_case_is_32_above('k', a + name, b);
    assert(text::ascii_lowercase(name) =~= "kde"@);
    text::parts_are_found(text::ascii_lowercase(a), "kde"@, text::ascii_lowercase(b));
}

/// A pipeline reads the node of the stream from its descriptor, and encodes with the element of
/// the codec at 7000 kbit/s.
pub proof fn pipelines_name_their_parts(fd: int, node_id: nat, encoder: Seq<char>)
    ensures
        text::begins(
            pipeline_text(fd, node_id, encoder),
            "pipewiresrc fd="@ + text::signed_decimal(fd) + " path="@ + text::decimal(node_id)
                + " ! "@,
        ),
        text::occurs(pipeline_text(fd, node_id, encoder), " ! "@ + encoder + " name=enc "@),
        text::occurs(pipeline_text(fd, node_id, encoder), " bitrate=7000 "@),
{
    let s = pipeline_text(fd, node_id, encoder);
    let head = "pipewiresrc fd="@ + text::signed_decimal(fd) + " path="@ + text::decimal(node_id);
    reveal_strlit(" ! ");
    reveal_strlit(" name=enc ");
    reveal_strlit(" bitrate=7000 ");
    reveal_strlit(" ! videoconvert ! ");
    reveal_strlit(" name=enc rate-control=vbr bitrate=");
    reveal_strlit(" target-percentage=75 ! appsink name=sink sync=false");
    reveal_with_fuel(text::decimal, 4);
    let rate = text::decimal(7000);
    assert(rate =~= seq!['7', '0', '0', '0']);
    let n = head.len() as int;
    assert(s.subrange(0, n + 3) =~= head + " ! "@);
    let a = " ! "@ + encoder + " name=enc "@;
    assert(s.subrange(n + 15, n + 15 + a.len()) =~= a);
    assert(text::occurs_at(s, a, n + 15));
    let k = n + 18 + encoder.len() + 26;
    assert(s.subrange(k, k + 14) =~= " bitrate=7000 "@);
    assert(text::occurs_at(s, " bitrate=7000 "@, k));
}

} // verus!
