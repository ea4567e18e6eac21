//! Putting the fragments of video frames and audio packets together again.
use crate::shared::fragments;
use crate::shared::server_datagram::ServerMessage;
use crate::shared::wire;
use std::collections::HashMap;
use vstd::prelude::*;

verus! {

broadcast use vstd::std_specs::hash::group_hash_axioms;

// ----- frame numbers

/// Whether frame `a` is frame `b` or came before it, where the numbers start again at 0
/// after 65535: `b` is at most half the way round after `a`.
pub open spec fn at_most(a: u16, b: u16) -> bool {
    (b - a) % 65536 < 0x8000
}

/// Whether frame `a` is frame `b` or came before it.
pub fn u16_leq(a: u16, b: u16) -> (r: bool)
    ensures
        r == at_most(a, b),
{
    b.wrapping_sub(a) < 0x8000
}

/// The order of frame numbers holds for a frame and those of the half round before it, and
/// for none of the half round after it.
pub proof fn frame_order(a: u16, steps: int)
    requires
        0 <= steps < 65536,
    ensures
        at_most(a, ((a + steps) % 65536) as u16) <==> steps < 0x8000,
        at_most(((a + steps) % 65536) as u16, a) <==> steps == 0 || steps > 0x8000,
{
}

// ----- what is pending

/// A frame of which some fragments are still missing.
pub struct PendingFrame {
    fragments: Vec<Option<Vec<u8>>>,
    is_keyframe: bool,
}

/// What is there of a frame.
#[verifier::ext_equal]
pub ghost struct Partial {
    pub fragments: Seq<Option<Seq<u8>>>,
    pub is_keyframe: bool,
}

/// What is there of one fragment.
pub open spec fn fragment_view(f: Option<Vec<u8>>) -> Option<Seq<u8>> {
    match f {
        Some(bytes) => Some(bytes@),
        None => None,
    }
}

impl View for PendingFrame {
    type V = Partial;

    closed spec fn view(&self) -> Partial {
        Partial {
            fragments: self.fragments@.map_values(|f: Option<Vec<u8>>| fragment_view(f)),
            is_keyframe: self.is_keyframe,
        }
    }
}

/// A frame of `n` fragments of which none is there.
pub open spec fn nothing_of(n: nat) -> Partial {
    Partial { fragments: Seq::new(n, |i: int| None), is_keyframe: false }
}

/// Whether no fragment is missing.
pub open spec fn complete(p: Partial) -> bool {
    forall|i: int| 0 <= i < p.fragments.len() ==> (#[trigger] p.fragments[i]) is Some
}

/// The fragments one after the other; missing ones are passed over.
pub open spec fn joined(fragments: Seq<Option<Seq<u8>>>) -> Seq<u8>
    decreases fragments.len(),
{
    if fragments.len() == 0 {
        Seq::empty()
    } else {
        let before = joined(fragments.drop_last());
        match fragments.last() {
            Some(bytes) => before + bytes,
            None => before,
        }
    }
}

impl PendingFrame {
    fn new(n: usize) -> (p: PendingFrame)
        ensures
            p@ == nothing_of(n as nat),
    {
        let mut fragments: Vec<Option<Vec<u8>>> = Vec::new();
        let mut i: usize = 0;
        while i < n
            invariant
                i <= n,
                fragments@.len() == i,
                forall|j: int| 0 <= j < i ==> (#[trigger] fragments@[j]) is None,
            decreases n - i,
        {
            fragments.push(None);
            i += 1;
        }
        let p = PendingFrame { fragments, is_keyframe: false };
        assert(p@.fragments =~= nothing_of(n as nat).fragments);
        p
    }

    fn is_complete(&self) -> (r: bool)
        ensures
            r == complete(self@),
    {
        let mut i: usize = 0;
        while i < self.fragments.len()
            invariant
                i <= self.fragments.len(),
                forall|j: int| 0 <= j < i ==> (#[trigger] self@.fragments[j]) is Some,
            decreases self.fragments.len() - i,
        {
            if self.fragments[i].is_none() {
                assert(self@.fragments[i as int] is None);
                return false;
            }
            i += 1;
        }
        true
    }

    fn join(&self) -> (r: Vec<u8>)
        ensures
            r@ == joined(self@.fragments),
    {
        let mut r: Vec<u8> = Vec::new();
        let mut i: usize = 0;
        while i < self.fragments.len()
            invariant
                i <= self.fragments.len(),
                r@ == joined(self@.fragments.take(i as int)),
            decreases self.fragments.len() - i,
        {
            let ghost longer = self@.fragments.take(i + 1);
            assert(longer.drop_last() =~= self@.fragments.take(i as int));
            assert(longer.last() == fragment_view(self.fragments@[i as int]));
            if let Some(bytes) = &self.fragments[i] {
                wire::push_bytes(&mut r, bytes.as_slice());
            }
            i += 1;
        }
        assert(self@.fragments.take(self@.fragments.len() as int) =~= self@.fragments);
        r
    }

    /// What the fragments make up with another one, where none is missing then and that one
    /// was.
    fn join_with(&self, i: usize, payload: &[u8]) -> (r: Option<Vec<u8>>)
        ensures
            fragment_view(r) == (if i < self@.fragments.len() && self@.fragments[i as int] is None
                && complete(
                Partial {
                    fragments: self@.fragments.update(i as int, Some(payload@)),
                    is_keyframe: self@.is_keyframe,
                },
            ) {
                Some(joined(self@.fragments.update(i as int, Some(payload@))))
            } else {
                None
            }),
    {
        if i >= self.fragments.len() || self.fragments[i].is_some() {
            return None;
        }
        let ghost all = self@.fragments.update(i as int, Some(payload@));
        let ghost now = Partial { fragments: all, is_keyframe: self@.is_keyframe };
        let mut r: Vec<u8> = Vec::new();
        let mut j: usize = 0;
        while j < self.fragments.len()
            invariant
                j <= self.fragments.len(),
                i < self.fragments.len(),
                all == self@.fragments.update(i as int, Some(payload@)),
                now.fragments == all,
                r@ == joined(all.take(j as int)),
                forall|k: int| 0 <= k < j ==> (#[trigger] all[k]) is Some,
                self@.fragments[i as int] is None,
                now.is_keyframe == self@.is_keyframe,
            decreases self.fragments.len() - j,
        {
            let ghost longer = all.take(j + 1);
            assert(longer.drop_last() =~= all.take(j as int));
            assert(longer.last() == all[j as int]);
            if j == i {
                wire::push_bytes(&mut r, payload);
            } else {
                assert(all[j as int] == fragment_view(self.fragments@[j as int]));
                match &self.fragments[j] {
                    Some(bytes) => wire::push_bytes(&mut r, bytes.as_slice()),
                    None => {
                        assert(now.fragments[j as int] is None);
                        return None;
                    },
                }
            }
            j += 1;
        }
        assert(all.take(all.len() as int) =~= all);
        Some(r)
    }

    /// Takes a fragment unless it is there already; says whether it was taken.
    fn take_fragment(&mut self, i: usize, payload: Vec<u8>) -> (taken: bool)
        requires
            i < old(self)@.fragments.len(),
        ensures
            taken == (old(self)@.fragments[i as int] is None),
            final(self)@.is_keyframe == old(self)@.is_keyframe,
            final(self)@.fragments == (if taken {
                old(self)@.fragments.update(i as int, Some(payload@))
            } else {
                old(self)@.fragments
            }),
    {
        if self.fragments[i].is_some() {
            return false;
        }
        self.fragments.set(i, Some(payload));
        assert(self@.fragments =~= old(self)@.fragments.update(i as int, Some(payload@)));
        true
    }
}

/// The pending frames by their numbers.
pub open spec fn partials(m: Map<u16, PendingFrame>) -> Map<u16, Partial> {
    m.map_values(|p: PendingFrame| p@)
}

/// What is pending of a frame when one of its fragments arrives.
pub open spec fn pending_of(m: Map<u16, Partial>, frame_id: u16, num_frags: u16) -> Partial {
    if m.contains_key(frame_id) {
        m[frame_id]
    } else {
        nothing_of(num_frags as nat)
    }
}

// ----- video

/// What a video fragment leads to: the frames that are pending then, and the frame that it
/// completes, if it does. A fragment that is there already changes nothing but the
/// keyframe flag. A frame that is complete drops itself and all frames before it.
pub open spec fn video_step(
    m: Map<u16, Partial>,
    frame_id: u16,
    frag_idx: u16,
    num_frags: u16,
    is_keyframe: bool,
    payload: Seq<u8>,
) -> (Map<u16, Partial>, Option<(bool, Seq<u8>)>) {
    let p = pending_of(m, frame_id, num_frags);
    let flag = p.is_keyframe || is_keyframe;
    if p.fragments[frag_idx as int] is Some {
        (m.insert(frame_id, Partial { fragments: p.fragments, is_keyframe: flag }), None)
    } else {
        let fragments = p.fragments.update(frag_idx as int, Some(payload));
        let now = Partial { fragments, is_keyframe: flag };
        if complete(now) {
            (m.filter_keys(|id: u16| !at_most(id, frame_id)), Some((flag, joined(fragments))))
        } else {
            (m.insert(frame_id, now), None)
        }
    }
}

/// A video frame, put together.
pub struct AssembledFrame {
    pub is_keyframe: bool,
    pub data: Vec<u8>,
}

/// Puts video frames together.
pub struct FrameAssembler {
    pending: HashMap<u16, PendingFrame>,
}

impl View for FrameAssembler {
    type V = Map<u16, Partial>;

    closed spec fn view(&self) -> Map<u16, Partial> {
        partials(self.pending@)
    }
}

impl FrameAssembler {
    /// Nothing is pending.
    pub fn new() -> (a: FrameAssembler)
        ensures
            a@ == Map::<u16, Partial>::empty(),
    {
        let a = FrameAssembler { pending: HashMap::new() };
        assert(a@ =~= Map::<u16, Partial>::empty());
        a
    }

    /// Whether a fragment has a place in its frame: its number is below the number of
    /// fragments with which the frame began.
    pub fn has_place(&self, frame_id: u16, frag_idx: u16, num_frags: u16) -> (r: bool)
        ensures
            r == (frag_idx < pending_of(self@, frame_id, num_frags).fragments.len()),
    {
        match self.pending.get(&frame_id) {
            Some(p) => {
                assert(self@[frame_id].fragments.len() == p.fragments@.len());
                (frag_idx as usize) < p.fragments.len()
            },
            None => frag_idx < num_frags,
        }
    }

    /// A video fragment arrives; returns the frame that it completes.
    pub fn push(
        &mut self,
        frame_id: u16,
        frag_idx: u16,
        num_frags: u16,
        is_keyframe: bool,
        payload: Vec<u8>,
    ) -> (r: Option<AssembledFrame>)
        requires
            frag_idx < pending_of(old(self)@, frame_id, num_frags).fragments.len(),
        ensures
            final(self)@ == video_step(
                old(self)@,
                frame_id,
                frag_idx,
                num_frags,
                is_keyframe,
                payload@,
            ).0,
            (match r {
                Some(f) => Some((f.is_keyframe, f.data@)),
                None => None,
            }) == video_step(
                old(self)@,
                frame_id,
                frag_idx,
                num_frags,
                is_keyframe,
                payload@,
            ).1,
    {
        let ghost before = self@;
        let ghost map = self.pending@;
        let mut entry = match self.pending.remove(&frame_id) {
            Some(entry) => entry,
            None => PendingFrame::new(num_frags as usize),
        };
        assert(self.pending@ =~= map.remove(frame_id));
        assert(entry@ == pending_of(before, frame_id, num_frags));
        let ghost p = entry@;
        if is_keyframe {
            entry.is_keyframe = true;
            assert(entry@.fragments =~= p.fragments);
        }
        let taken = entry.take_fragment(frag_idx as usize, payload);
        let done = taken && entry.is_complete();
        let ghost now = entry@;
        if done {
            let data = entry.join();
            let is_keyframe = entry.is_keyframe;
            self.drop_until(frame_id);
            proof {
                assert(self@ =~= before.filter_keys(|id: u16| !at_most(id, frame_id)));
            }
            Some(AssembledFrame { is_keyframe, data })
        } else {
            self.pending.insert(frame_id, entry);
            proof {
                assert(self@ =~= before.insert(frame_id, now));
            }
            None
        }
    }

    /// Drops the frame `frame_id` and all before it.
    fn drop_until(&mut self, frame_id: u16)
        ensures
            final(self)@ == old(self)@.filter_keys(|id: u16| !at_most(id, frame_id)),
    {
        let ghost map = self.pending@;
        let ghost row = vstd::std_specs::iter::IteratorSpec::remaining(&self.pending.keys());
        let mut doomed: Vec<u16> = Vec::new();
        for id in it: self.pending.keys()
            invariant
                it.seq() == row,
                forall|k: u16| #[trigger]
                    doomed@.contains(k) <==> at_most(k, frame_id) && exists|j: int|
                        0 <= j < it.index() && *(#[trigger] row[j]) == k,
        {
            let ghost old_doomed = doomed@;
            if u16_leq(*id, frame_id) {
                doomed.push(*id);
            }
            proof {
                let i = it.index();
                assert forall|k: u16| #[trigger] doomed@.contains(k) implies at_most(k, frame_id)
                    && exists|j: int| 0 <= j < i + 1 && *(#[trigger] row[j]) == k by {
                    let at = choose|at: int| 0 <= at < doomed@.len() && doomed@[at] == k;
                    if at < old_doomed.len() {
                        assert(old_doomed[at] == k);
                        assert(old_doomed.contains(k));
                    } else {
                        assert(*row[i] == k);
                    }
                }
                assert forall|k: u16|
                    at_most(k, frame_id) && exists|j: int|
                        0 <= j < i + 1 && *(#[trigger] row[j]) == k implies #[trigger] doomed@.contains(
                    k,
                ) by {
                    let j = choose|j: int| 0 <= j < i + 1 && *(#[trigger] row[j]) == k;
                    if j < i {
                        assert(old_doomed.contains(k));
                        let at = choose|at: int|
                            0 <= at < old_doomed.len() && old_doomed[at] == k;
                        assert(doomed@[at] == k);
                    } else {
                        assert(doomed@[doomed@.len() - 1] == k);
                    }
                }
            }
        }
        proof {
            assert forall|k: u16| #[trigger] doomed@.contains(k) <==> at_most(k, frame_id)
                && map.contains_key(k) by {
                assert(row.unref().to_set() == map.dom());
                if map.contains_key(k) {
                    assert(row.unref().to_set().contains(k));
                    let j = choose|j: int| 0 <= j < row.unref().len() && row.unref()[j] == k;
                    assert(*row[j] == k);
                }
                if exists|j: int| 0 <= j < row.len() && *(#[trigger] row[j]) == k {
                    let j = choose|j: int| 0 <= j < row.len() && *(#[trigger] row[j]) == k;
                    assert(row.unref()[j] == k);
                    assert(row.unref().to_set().contains(k));
                }
            }
        }
        let mut i: usize = 0;
        while i < doomed.len()
            invariant
                i <= doomed.len(),
                forall|k: u16| #[trigger]
                    doomed@.contains(k) <==> at_most(k, frame_id) && map.contains_key(k),
                forall|k: u16| #[trigger]
                    self.pending@.contains_key(k) <==> map.contains_key(k) && !doomed@.take(
                        i as int,
                    ).contains(k),
                forall|k: u16| #[trigger]
                    self.pending@.contains_key(k) ==> self.pending@[k] == map[k],
            decreases doomed.len() - i,
        {
            self.pending.remove(&doomed[i]);
            i += 1;
            proof {
                let longer = doomed@.take(i as int);
                let shorter = doomed@.take(i - 1);
                assert forall|k: u16| #[trigger] longer.contains(k) <==> shorter.contains(k) || k
                    == doomed@[i - 1] by {
                    if longer.contains(k) {
                        let j = choose|j: int| 0 <= j < longer.len() && longer[j] == k;
                        if j < i - 1 {
                            assert(shorter[j] == k);
                        }
                    }
                    if shorter.contains(k) {
                        let j = choose|j: int| 0 <= j < shorter.len() && shorter[j] == k;
                        assert(longer[j] == k);
                    }
                    if k == doomed@[i - 1] {
                        assert(longer[i - 1] == k);
                    }
                }
            }
        }
        proof {
            assert(doomed@.take(i as int) =~= doomed@);
            assert(self@ =~= old(self)@.filter_keys(|id: u16| !at_most(id, frame_id)));
        }
    }
}

// ----- audio

/// What an audio fragment leads to: the packets that are pending then, and the packet that
/// it completes, if it does. A fragment without a place, or that is there already, changes
/// nothing but that its packet is pending.
pub open spec fn audio_step(
    m: Map<u16, Partial>,
    frame_id: u16,
    frag_idx: u16,
    num_frags: u16,
    payload: Seq<u8>,
) -> (Map<u16, Partial>, Option<Seq<u8>>) {
    let p = pending_of(m, frame_id, num_frags);
    if frag_idx >= p.fragments.len() || p.fragments[frag_idx as int] is Some {
        (m.insert(frame_id, p), None)
    } else {
        let fragments = p.fragments.update(frag_idx as int, Some(payload));
        let now = Partial { fragments, is_keyframe: p.is_keyframe };
        if complete(now) {
            (m.remove(frame_id), Some(joined(fragments)))
        } else {
            (m.insert(frame_id, now), None)
        }
    }
}

/// Puts audio packets together.
pub struct PacketAssembler {
    pending: HashMap<u16, PendingFrame>,
}

impl View for PacketAssembler {
    type V = Map<u16, Partial>;

    closed spec fn view(&self) -> Map<u16, Partial> {
        partials(self.pending@)
    }
}

impl PacketAssembler {
    /// Nothing is pending.
    pub fn new() -> (a: PacketAssembler)
        ensures
            a@ == Map::<u16, Partial>::empty(),
    {
        let a = PacketAssembler { pending: HashMap::new() };
        assert(a@ =~= Map::<u16, Partial>::empty());
        a
    }

    /// The packet that an audio fragment would complete if it arrived now.
    pub fn completed_by(&self, frame_id: u16, frag_idx: u16, num_frags: u16, payload: &[u8]) -> (r:
        Option<Vec<u8>>)
        ensures
            fragment_view(r) == audio_step(self@, frame_id, frag_idx, num_frags, payload@).1,
    {
        match self.pending.get(&frame_id) {
            Some(entry) => entry.join_with(frag_idx as usize, payload),
            None => PendingFrame::new(num_frags as usize).join_with(frag_idx as usize, payload),
        }
    }

    /// An audio fragment arrives; returns the packet that it completes.
    pub fn push(&mut self, frame_id: u16, frag_idx: u16, num_frags: u16, payload: Vec<u8>) -> (r:
        Option<Vec<u8>>)
        ensures
            final(self)@ == audio_step(old(self)@, frame_id, frag_idx, num_frags, payload@).0,
            fragment_view(r) == audio_step(
                old(self)@,
                frame_id,
                frag_idx,
                num_frags,
                payload@,
            ).1,
    {
        let ghost before = self@;
        let ghost map = self.pending@;
        let mut entry = match self.pending.remove(&frame_id) {
            Some(entry) => entry,
            None => PendingFrame::new(num_frags as usize),
        };
        assert(self.pending@ =~= map.remove(frame_id));
        assert(entry@ == pending_of(before, frame_id, num_frags));
        let fits = (frag_idx as usize) < entry.fragments.len();
        let mut done = false;
        if fits {
            let taken = entry.take_fragment(frag_idx as usize, payload);
            done = taken && entry.is_complete();
        }
        let ghost now = entry@;
        if done {
            let data = entry.join();
            assert(self@ =~= before.remove(frame_id));
            Some(data)
        } else {
            self.pending.insert(frame_id, entry);
            assert(self@ =~= before.insert(frame_id, now));
            None
        }
    }
}

// ----- laws

/// What a message of the server leads to where video frames are put together. Messages that
/// are no video change nothing.
pub open spec fn video_arrives(m: Map<u16, Partial>, message: ServerMessage) -> (
    Map<u16, Partial>,
    Option<(bool, Seq<u8>)>,
) {
    match message {
        ServerMessage::VideoFrame {
            frame_id,
            frag_idx,
            num_frags,
            is_keyframe,
            codec,
            payload,
        } => video_step(m, frame_id, frag_idx, num_frags, is_keyframe, payload),
        _ => (m, None),
    }
}

/// A frame on its way: its number, whether it is a keyframe, and its pieces.
pub ghost struct CutFrame {
    pub frame_id: u16,
    pub is_keyframe: bool,
    pub codec: crate::shared::codec::Codec,
    pub pieces: Seq<Seq<u8>>,
}

/// A message that arrives while one frame or packet is on its way: one of its own pieces, or
/// something else.
pub ghost enum Arrival {
    Piece(int),
    Other(ServerMessage),
}

/// The messages among what arrives that are no pieces of the one on its way.
pub open spec fn others(arrivals: Seq<Arrival>) -> Seq<ServerMessage>
    decreases arrivals.len(),
{
    if arrivals.len() == 0 {
        Seq::empty()
    } else {
        match arrivals.last() {
            Arrival::Piece(_) => others(arrivals.drop_last()),
            Arrival::Other(message) => others(arrivals.drop_last()).push(message),
        }
    }
}

/// What is there of some pieces after these arrivals.
pub open spec fn arrived(pieces: Seq<Seq<u8>>, arrivals: Seq<Arrival>) -> Seq<Option<Seq<u8>>> {
    Seq::new(
        pieces.len(),
        |i: int|
            if arrivals.contains(Arrival::Piece(i)) {
                Some(pieces[i])
            } else {
                None
            },
    )
}

/// Whether the pieces that arrive are among the first `n`.
pub open spec fn within(arrivals: Seq<Arrival>, n: nat) -> bool {
    forall|k: int|
        0 <= k < arrivals.len() ==> (#[trigger] arrivals[k] matches Arrival::Piece(i) ==> 0 <= i < n)
}

/// Whether each of the first `n` pieces arrives.
pub open spec fn covers(arrivals: Seq<Arrival>, n: nat) -> bool {
    forall|i: int| 0 <= i < n ==> #[trigger] arrivals.contains(Arrival::Piece(i))
}

/// Whether the last arrival is a piece that was not there before.
pub open spec fn ends_with_new_piece(arrivals: Seq<Arrival>) -> bool {
    arrivals.len() > 0 && arrivals.last() is Piece && !arrivals.drop_last().contains(
        arrivals.last(),
    )
}

/// What comes of the fragments of a frame, some perhaps more than once, and of the messages
/// between them: what is pending then, and what the last arrival completed.
pub open spec fn deliver(m: Map<u16, Partial>, frame: CutFrame, arrivals: Seq<Arrival>) -> (
    Map<u16, Partial>,
    Option<(bool, Seq<u8>)>,
)
    decreases arrivals.len(),
{
    if arrivals.len() == 0 {
        (m, None)
    } else {
        let before = deliver(m, frame, arrivals.drop_last()).0;
        match arrivals.last() {
            Arrival::Piece(i) => video_arrives(
                before,
                crate::server::wt::frame_message(
                    frame.frame_id,
                    frame.is_keyframe,
                    frame.codec,
                    frame.pieces,
                    i,
                ),
            ),
            Arrival::Other(message) => video_arrives(before, message),
        }
    }
}

/// What is pending after a row of messages where video frames are put together.
pub open spec fn after_video(m: Map<u16, Partial>, messages: Seq<ServerMessage>) -> Map<
    u16,
    Partial,
>
    decreases messages.len(),
{
    if messages.len() == 0 {
        m
    } else {
        video_arrives(after_video(m, messages.drop_last()), messages.last()).0
    }
}

/// Whether a row of messages leaves a frame alone: none is a fragment of it, and none completes
/// a frame after it.
pub open spec fn spares_frame(
    m: Map<u16, Partial>,
    frame_id: u16,
    messages: Seq<ServerMessage>,
) -> bool
    decreases messages.len(),
{
    messages.len() == 0 || {
        &&& spares_frame(m, frame_id, messages.drop_last())
        &&& messages.last() matches ServerMessage::VideoFrame {
            frame_id: id,
            frag_idx,
            num_frags,
            is_keyframe,
            codec,
            payload,
        } ==> id != frame_id && (video_arrives(
            after_video(m, messages.drop_last()),
            messages.last(),
        ).1 is Some ==> !at_most(frame_id, id))
    }
}

proof fn contains_last_or_before<T>(row: Seq<T>)
    requires
        row.len() > 0,
    ensures
        forall|a: T| #[trigger] row.contains(a) <==> row.drop_last().contains(a) || a == row.last(),
{
    assert forall|a: T| #[trigger] row.contains(a) <==> row.drop_last().contains(a) || a
        == row.last() by {
        if row.contains(a) {
            let k = choose|k: int| 0 <= k < row.len() && row[k] == a;
            if k < row.len() - 1 {
                assert(row.drop_last()[k] == a);
            }
        }
        if row.drop_last().contains(a) {
            let k = choose|k: int| 0 <= k < row.drop_last().len() && row.drop_last()[k] == a;
            assert(row[k] == a);
        }
        if a == row.last() {
            assert(row[row.len() - 1] == a);
        }
    }
}

proof fn others_before(arrivals: Seq<Arrival>)
    requires
        arrivals.len() > 0,
        arrivals.last() is Other,
    ensures
        others(arrivals).len() > 0,
        others(arrivals).drop_last() == others(arrivals.drop_last()),
        others(arrivals).last() == arrivals.last()->Other_0,
{
    assert(others(arrivals).drop_last() =~= others(arrivals.drop_last()));
}

proof fn arrived_after(pieces: Seq<Seq<u8>>, arrivals: Seq<Arrival>)
    requires
        arrivals.len() > 0,
        within(arrivals, pieces.len()),
    ensures
        within(arrivals.drop_last(), pieces.len()),
        arrivals.last() is Other ==> arrived(pieces, arrivals) == arrived(
            pieces,
            arrivals.drop_last(),
        ),
        arrivals.last() matches Arrival::Piece(i) ==> 0 <= i < pieces.len() && arrived(
            pieces,
            arrivals,
        ) == arrived(pieces, arrivals.drop_last()).update(i, Some(pieces[i])),
        covers(arrivals.drop_last(), pieces.len()) ==> covers(arrivals, pieces.len()),
        complete(Partial { fragments: arrived(pieces, arrivals), is_keyframe: false }) <==> covers(
            arrivals,
            pieces.len(),
        ),
{
    contains_last_or_before(arrivals);
    let before = arrivals.drop_last();
    assert forall|k: int| 0 <= k < before.len() implies (#[trigger] before[k] matches Arrival::Piece(
        i,
    ) ==> 0 <= i < pieces.len()) by {
        assert(arrivals[k] == before[k]);
    }
    assert(arrivals[arrivals.len() - 1] == arrivals.last());
    match arrivals.last() {
        Arrival::Piece(i) => {
            assert(arrived(pieces, arrivals) =~= arrived(pieces, before).update(i, Some(pieces[i])));
        },
        Arrival::Other(_) => {
            assert(arrived(pieces, arrivals) =~= arrived(pieces, before));
        },
    }
    let now = Partial { fragments: arrived(pieces, arrivals), is_keyframe: false };
    if complete(now) {
        assert forall|i: int| 0 <= i < pieces.len() implies #[trigger] arrivals.contains(
            Arrival::Piece(i),
        ) by {
            assert(now.fragments[i] is Some);
        }
    }
}

/// As long as some fragment of a frame is missing, it is not put together, and what has arrived
/// of it is kept. Other frames are as they are without it.
pub proof fn partial_frames_wait(m: Map<u16, Partial>, frame: CutFrame, arrivals: Seq<Arrival>)
    requires
        !m.contains_key(frame.frame_id),
        0 < frame.pieces.len() < 65536,
        within(arrivals, frame.pieces.len()),
        spares_frame(m, frame.frame_id, others(arrivals)),
        !covers(arrivals, frame.pieces.len()),
    ensures
        arrivals.len() > 0 && arrivals.last() is Piece ==> deliver(m, frame, arrivals).1 is None,
        pending_of(
            deliver(m, frame, arrivals).0,
            frame.frame_id,
            frame.pieces.len() as u16,
        ) == (Partial {
            fragments: arrived(frame.pieces, arrivals),
            is_keyframe: frame.is_keyframe && arrivals.contains(Arrival::Piece(0)),
        }),
        deliver(m, frame, arrivals).0.remove(frame.frame_id) == after_video(m, others(arrivals)),
        !after_video(m, others(arrivals)).contains_key(frame.frame_id),
    decreases arrivals.len(),
{
    let own = frame.frame_id;
    let n = frame.pieces.len();
    let now = Partial {
        fragments: arrived(frame.pieces, arrivals),
        is_keyframe: frame.is_keyframe && arrivals.contains(Arrival::Piece(0)),
    };
    if arrivals.len() == 0 {
        assert(nothing_of(n).fragments =~= now.fragments);
        assert(m.remove(own) =~= m);
    } else {
        let before = arrivals.drop_last();
        contains_last_or_before(arrivals);
        arrived_after(frame.pieces, arrivals);
        let d = deliver(m, frame, before).0;
        let rest = after_video(m, others(before));
        match arrivals.last() {
            Arrival::Piece(i) => {
                partial_frames_wait(m, frame, before);
                let p = pending_of(d, own, n as u16);
                assert(!complete(now)) by {
                    let j = choose|j: int|
                        0 <= j < n && !#[trigger] arrivals.contains(Arrival::Piece(j));
                    assert(now.fragments[j] is None);
                }
                if p.fragments[i] is Some {
                    assert(p.fragments =~= now.fragments);
                }
                assert(deliver(m, frame, arrivals).0 == d.insert(own, now));
                assert(d.insert(own, now).remove(own) =~= d.remove(own));
            },
            Arrival::Other(message) => {
                others_before(arrivals);
                partial_frames_wait(m, frame, before);
                if let ServerMessage::VideoFrame {
                    frame_id: id,
                    frag_idx,
                    num_frags,
                    is_keyframe,
                    codec,
                    payload,
                } = message {
                    assert(d.contains_key(id) <==> d.remove(own).contains_key(id));
                    assert(pending_of(d, id, num_frags) == pending_of(rest, id, num_frags));
                    assert(deliver(m, frame, arrivals).0.remove(own) =~= video_arrives(
                        rest,
                        message,
                    ).0);
                }
            },
        }
    }
}

proof fn joined_pieces(pieces: Seq<Seq<u8>>, fragments: Seq<Option<Seq<u8>>>)
    requires
        fragments.len() == pieces.len(),
        forall|i: int| 0 <= i < pieces.len() ==> #[trigger] fragments[i] == Some(pieces[i]),
    ensures
        joined(fragments) == fragments::concat(pieces),
    decreases pieces.len(),
{
    if pieces.len() > 0 {
        joined_pieces(pieces.drop_last(), fragments.drop_last());
    }
}

/// The fragments of a frame, in whatever order they arrive, even if some arrive more than once
/// and whatever arrives between them, give the frame back with the fragment that was missing
/// last: its bytes, and whether it is a keyframe. Nothing of it or of frames before it stays
/// pending; frames after it are as they are without it. All this holds unless a frame after it
/// is completed first, which drops it.
pub proof fn fragments_give_the_frame_back(
    m: Map<u16, Partial>,
    frame: CutFrame,
    data: Seq<u8>,
    payload_size: nat,
    arrivals: Seq<Arrival>,
)
    requires
        !m.contains_key(frame.frame_id),
        payload_size > 0,
        frame.pieces == fragments::chunks(data, payload_size),
        0 < frame.pieces.len() < 65536,
        within(arrivals, frame.pieces.len()),
        spares_frame(m, frame.frame_id, others(arrivals)),
        covers(arrivals, frame.pieces.len()),
        ends_with_new_piece(arrivals),
    ensures
        deliver(m, frame, arrivals).1 == Some((frame.is_keyframe, data)),
        deliver(m, frame, arrivals).0 == after_video(m, others(arrivals)).filter_keys(
            |id: u16| !at_most(id, frame.frame_id),
        ),
{
    let own = frame.frame_id;
    let before = arrivals.drop_last();
    let n = frame.pieces.len();
    let last = arrivals.last()->Piece_0;
    contains_last_or_before(arrivals);
    arrived_after(frame.pieces, arrivals);
    assert(!covers(before, n)) by {
        assert(!before.contains(Arrival::Piece(last)));
    }
    partial_frames_wait(m, frame, before);
    assert(arrivals.contains(Arrival::Piece(0)));
    let all = arrived(frame.pieces, arrivals);
    assert forall|i: int| 0 <= i < n implies #[trigger] all[i] == Some(frame.pieces[i]) by {
        assert(arrivals.contains(Arrival::Piece(i)));
    }
    joined_pieces(frame.pieces, all);
    fragments::chunks_make_up_the_data(data, payload_size);
    assert(complete(Partial { fragments: all, is_keyframe: frame.is_keyframe }));
    let d = deliver(m, frame, before).0;
    let keep = |id: u16| !at_most(id, own);
    assert(at_most(own, own));
    assert(d.filter_keys(keep) =~= d.remove(own).filter_keys(keep));
}

/// What a message of the server leads to where audio packets are put together. Messages that
/// are no audio change nothing.
pub open spec fn audio_arrives(m: Map<u16, Partial>, message: ServerMessage) -> (
    Map<u16, Partial>,
    Option<Seq<u8>>,
) {
    match message {
        ServerMessage::AudioFrame {
            frame_id,
            frag_idx,
            num_frags,
            channels,
            rate,
            format,
            payload,
        } => audio_step(m, frame_id, frag_idx, num_frags, payload),
        _ => (m, None),
    }
}

/// An audio packet on its way: its number, what it plays as, and its pieces.
pub ghost struct CutPacket {
    pub frame_id: u16,
    pub channels: u8,
    pub rate: u32,
    pub format: crate::shared::server_datagram::AudioFormat,
    pub pieces: Seq<Seq<u8>>,
}

/// What comes of the fragments of an audio packet, some perhaps more than once, and of the
/// messages between them.
pub open spec fn deliver_packet(
    m: Map<u16, Partial>,
    packet: CutPacket,
    arrivals: Seq<Arrival>,
) -> (Map<u16, Partial>, Option<Seq<u8>>)
    decreases arrivals.len(),
{
    if arrivals.len() == 0 {
        (m, None)
    } else {
        let before = deliver_packet(m, packet, arrivals.drop_last()).0;
        match arrivals.last() {
            Arrival::Piece(i) => audio_arrives(
                before,
                crate::server::pipewire::audio::packet_message(
                    packet.frame_id,
                    packet.channels,
                    packet.rate,
                    packet.format,
                    packet.pieces,
                    i,
                ),
            ),
            Arrival::Other(message) => audio_arrives(before, message),
        }
    }
}

/// What is pending after a row of messages where audio packets are put together.
pub open spec fn after_audio(m: Map<u16, Partial>, messages: Seq<ServerMessage>) -> Map<
    u16,
    Partial,
>
    decreases messages.len(),
{
    if messages.len() == 0 {
        m
    } else {
        audio_arrives(after_audio(m, messages.drop_last()), messages.last()).0
    }
}

/// Whether no message of a row is a fragment of a packet.
pub open spec fn spares_packet(frame_id: u16, messages: Seq<ServerMessage>) -> bool {
    forall|k: int|
        0 <= k < messages.len() ==> (#[trigger] messages[k] matches ServerMessage::AudioFrame {
            frame_id: id,
            frag_idx,
            num_frags,
            channels,
            rate,
            format,
            payload,
        } ==> id != frame_id)
}

/// As long as some fragment of a packet is missing, it is not put together, and what has
/// arrived of it is kept. Other packets are as they are without it.
pub proof fn partial_packets_wait(m: Map<u16, Partial>, packet: CutPacket, arrivals: Seq<Arrival>)
    requires
        !m.contains_key(packet.frame_id),
        0 < packet.pieces.len() < 65536,
        within(arrivals, packet.pieces.len()),
        spares_packet(packet.frame_id, others(arrivals)),
        !covers(arrivals, packet.pieces.len()),
    ensures
        arrivals.len() > 0 && arrivals.last() is Piece ==> deliver_packet(
            m,
            packet,
            arrivals,
        ).1 is None,
        pending_of(
            deliver_packet(m, packet, arrivals).0,
            packet.frame_id,
            packet.pieces.len() as u16,
        ) == (Partial { fragments: arrived(packet.pieces, arrivals), is_keyframe: false }),
        deliver_packet(m, packet, arrivals).0.remove(packet.frame_id) == after_audio(
            m,
            others(arrivals),
        ),
        !after_audio(m, others(arrivals)).contains_key(packet.frame_id),
    decreases arrivals.len(),
{
    let own = packet.frame_id;
    let n = packet.pieces.len();
    let now = Partial { fragments: arrived(packet.pieces, arrivals), is_keyframe: false };
    if arrivals.len() == 0 {
        assert(nothing_of(n).fragments =~= now.fragments);
        assert(m.remove(own) =~= m);
    } else {
        let before = arrivals.drop_last();
        contains_last_or_before(arrivals);
        arrived_after(packet.pieces, arrivals);
        let d = deliver_packet(m, packet, before).0;
        let rest = after_audio(m, others(before));
        match arrivals.last() {
            Arrival::Piece(i) => {
                partial_packets_wait(m, packet, before);
                let p = pending_of(d, own, n as u16);
                if p.fragments[i] is Some {
                    assert(p.fragments =~= now.fragments);
                }
                assert(deliver_packet(m, packet, arrivals).0 == d.insert(own, now));
                assert(d.insert(own, now).remove(own) =~= d.remove(own));
            },
            Arrival::Other(message) => {
                others_before(arrivals);
                let row = others(arrivals);
                assert forall|k: int| 0 <= k < row.len() - 1 implies others(before)[k] == #[trigger] row[k] by {
                    assert(row.drop_last()[k] == row[k]);
                }
                assert(row[row.len() - 1] == message);
                partial_packets_wait(m, packet, before);
                if let ServerMessage::AudioFrame {
                    frame_id: id,
                    frag_idx,
                    num_frags,
                    channels,
                    rate,
                    format,
                    payload,
                } = message {
                    assert(d.contains_key(id) <==> d.remove(own).contains_key(id));
                    assert(pending_of(d, id, num_frags) == pending_of(rest, id, num_frags));
                    assert(deliver_packet(m, packet, arrivals).0.remove(own) =~= audio_arrives(
                        rest,
                        message,
                    ).0);
                }
            },
        }
    }
}

/// The fragments of an audio packet, in whatever order they arrive, even if some arrive more
/// than once and whatever arrives between them, give the packet back with the fragment that was
/// missing last. Other packets are as they are without it.
pub proof fn fragments_give_the_packet_back(
    m: Map<u16, Partial>,
    packet: CutPacket,
    data: Seq<u8>,
    payload_size: nat,
    arrivals: Seq<Arrival>,
)
    requires
        !m.contains_key(packet.frame_id),
        payload_size > 0,
        packet.pieces == fragments::chunks(data, payload_size),
        0 < packet.pieces.len() < 65536,
        within(arrivals, packet.pieces.len()),
        spares_packet(packet.frame_id, others(arrivals)),
        covers(arrivals, packet.pieces.len()),
        ends_with_new_piece(arrivals),
    ensures
        deliver_packet(m, packet, arrivals) == (after_audio(m, others(arrivals)), Some(data)),
{
    let own = packet.frame_id;
    let before = arrivals.drop_last();
    let n = packet.pieces.len();
    let last = arrivals.last()->Piece_0;
    contains_last_or_before(arrivals);
    arrived_after(packet.pieces, arrivals);
    assert(!covers(before, n)) by {
        assert(!before.contains(Arrival::Piece(last)));
    }
    partial_packets_wait(m, packet, before);
    let all = arrived(packet.pieces, arrivals);
    assert forall|i: int| 0 <= i < n implies #[trigger] all[i] == Some(packet.pieces[i]) by {
        assert(arrivals.contains(Arrival::Piece(i)));
    }
    joined_pieces(packet.pieces, all);
    fragments::chunks_make_up_the_data(data, payload_size);
    assert(complete(Partial { fragments: all, is_keyframe: false }));
}

/// A fragment that came before changes none of what is held of its frame, but that the frame is
/// a key frame once one of its fragments says so; nothing is given out.
pub proof fn fragments_count_once(
    m: Map<u16, Partial>,
    frame_id: u16,
    frag_idx: u16,
    num_frags: u16,
    is_keyframe: bool,
    payload: Seq<u8>,
)
    requires
        m.contains_key(frame_id),
        frag_idx < m[frame_id].fragments.len(),
        m[frame_id].fragments[frag_idx as int] is Some,
    ensures
        ({
            let (after, given) = video_step(m, frame_id, frag_idx, num_frags, is_keyframe, payload);
            &&& given is None
            &&& after.contains_key(frame_id)
            &&& after[frame_id].fragments == m[frame_id].fragments
            &&& after[frame_id].is_keyframe <==> m[frame_id].is_keyframe || is_keyframe
            &&& after.remove(frame_id) == m.remove(frame_id)
            &&& audio_step(m, frame_id, frag_idx, num_frags, payload) == (m, None::<Seq<u8>>)
        }),
{
    let (after, given) = video_step(m, frame_id, frag_idx, num_frags, is_keyframe, payload);
    assert(after.remove(frame_id) =~= m.remove(frame_id));
    assert(m.insert(frame_id, m[frame_id]) =~= m);
}

/// A frame is given out exactly when its last missing fragment arrives, with all of its bytes in
/// order, and as a key frame where any of its fragments said so. Then it is forgotten, and with it
/// all frames up to half the numbers before it; those after it stay.
pub proof fn frames_are_given_out_when_whole(
    m: Map<u16, Partial>,
    frame_id: u16,
    frag_idx: u16,
    num_frags: u16,
    is_keyframe: bool,
    payload: Seq<u8>,
    other: u16,
)
    requires
        m.contains_key(frame_id),
        frag_idx < m[frame_id].fragments.len(),
        m[frame_id].fragments[frag_idx as int] is None,
    ensures
        ({
            let (after, given) = video_step(m, frame_id, frag_idx, num_frags, is_keyframe, payload);
            let held = m[frame_id].fragments;
            let whole = forall|i: int|
                0 <= i < held.len() && i != frag_idx ==> (#[trigger] held[i]) is Some;
            &&& given is Some <==> whole
            &&& given matches Some((key, data)) ==> (key <==> m[frame_id].is_keyframe
                || is_keyframe) && data == joined(held.update(frag_idx as int, Some(payload)))
            &&& whole ==> (after.contains_key(other) <==> m.contains_key(other) && 1 <= (other
                - frame_id) % 65536 <= 32768)
            &&& whole && after.contains_key(other) ==> after[other] == m[other]
            &&& !whole ==> after.contains_key(frame_id) && after[frame_id].fragments == held.update(
                frag_idx as int,
                Some(payload),
            )
            &&& !whole && other != frame_id ==> (after.contains_key(other) == m.contains_key(other))
                && after[other] == m[other]
        }),
{
    let held = m[frame_id].fragments;
    let updated = held.update(frag_idx as int, Some(payload));
    let now = Partial { fragments: updated, is_keyframe: m[frame_id].is_keyframe || is_keyframe };
    if complete(now) {
        assert forall|i: int| 0 <= i < held.len() && i != frag_idx implies (
        #[trigger] held[i]) is Some by {
            assert(updated[i] is Some);
        }
    } else {
        let i = choose|i: int| 0 <= i < updated.len() && !(updated[i] is Some);
        assert(held[i] is None);
    }
}

/// A packet is given out exactly when its last missing fragment arrives, with all of its bytes in
/// order; then it is forgotten, and no other packet is touched.
pub proof fn packets_are_given_out_when_whole(
    m: Map<u16, Partial>,
    frame_id: u16,
    frag_idx: u16,
    num_frags: u16,
    payload: Seq<u8>,
)
    requires
        m.contains_key(frame_id),
        frag_idx < m[frame_id].fragments.len(),
        m[frame_id].fragments[frag_idx as int] is None,
    ensures
        ({
            let (after, given) = audio_step(m, frame_id, frag_idx, num_frags, payload);
            let held = m[frame_id].fragments;
            let whole = forall|i: int|
                0 <= i < held.len() && i != frag_idx ==> (#[trigger] held[i]) is Some;
            &&& given is Some <==> whole
            &&& given matches Some(data) ==> data == joined(
                held.update(frag_idx as int, Some(payload)),
            )
            &&& whole <==> !after.contains_key(frame_id)
            &&& !whole ==> after[frame_id].fragments == held.update(frag_idx as int, Some(payload))
            &&& after.remove(frame_id) == m.remove(frame_id)
        }),
{
    let held = m[frame_id].fragments;
    let updated = held.update(frag_idx as int, Some(payload));
    let now = Partial { fragments: updated, is_keyframe: m[frame_id].is_keyframe };
    let (after, given) = audio_step(m, frame_id, frag_idx, num_frags, payload);
    if complete(now) {
        assert forall|i: int| 0 <= i < held.len() && i != frag_idx implies (
        #[trigger] held[i]) is Some by {
            assert(updated[i] is Some);
        }
    } else {
        let i = choose|i: int| 0 <= i < updated.len() && !(updated[i] is Some);
        assert(held[i] is None);
    }
    assert(after.remove(frame_id) =~= m.remove(frame_id));
}

/// A frame or packet of which nothing came before is started with as many empty places as its
/// first fragment says; one of a single fragment is given out at once.
pub proof fn single_fragments_are_given_out_at_once(
    m: Map<u16, Partial>,
    frame_id: u16,
    num_frags: u16,
    is_keyframe: bool,
    payload: Seq<u8>,
    i: int,
)
    requires
        !m.contains_key(frame_id),
    ensures
        pending_of(m, frame_id, num_frags).fragments.len() == num_frags,
        0 <= i < num_frags ==> pending_of(m, frame_id, num_frags).fragments[i] is None,
        !pending_of(m, frame_id, num_frags).is_keyframe,
        video_step(m, frame_id, 0, 1, is_keyframe, payload).1 == Some((is_keyframe, payload)),
        audio_step(m, frame_id, 0, 1, payload) == (m, Some(payload)),
{
    let one = nothing_of(1).fragments.update(0, Some(payload));
    reveal_with_fuel(joined, 2);
    assert(one.drop_last() =~= Seq::<Option<Seq<u8>>>::empty());
    assert(one.last() == Some(payload));
    assert(joined(one) =~= payload);
    assert(m.remove(frame_id) =~= m);
}

/// Fragments are joined in order, and those that are missing count for nothing.
pub proof fn fragments_are_joined_in_order(fragments: Seq<Option<Seq<u8>>>, bytes: Seq<u8>)
    ensures
        joined(Seq::empty()).len() == 0,
        joined(fragments.push(Some(bytes))) == joined(fragments) + bytes,
        joined(fragments.push(None)) == joined(fragments),
{
    assert(fragments.push(Some(bytes)).drop_last() =~= fragments);
    assert(fragments.push(None).drop_last() =~= fragments);
}

/// Video goes to the frames and audio to the packets, and nothing else goes to either.
pub proof fn messages_go_where_they_belong(m: Map<u16, Partial>, message: ServerMessage)
    ensures
        message !is VideoFrame ==> video_arrives(m, message) == (m, None::<(bool, Seq<u8>)>),
        message !is AudioFrame ==> audio_arrives(m, message) == (m, None::<Seq<u8>>),
{
}

} // verus!
