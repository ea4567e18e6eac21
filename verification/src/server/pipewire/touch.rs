//! The touchscreen: which fingers are down, and where their events go.
use std::collections::HashSet;
use vstd::prelude::*;

verus! {

broadcast use vstd::std_specs::hash::group_hash_axioms;

/// A finger comes down, moves or is lifted.
#[derive(Debug, Clone, Copy, PartialEq, Eq, Structural)]
pub enum EisTouchEvent {
    Down { x: u16, y: u16, index: u8 },
    Motion { x: u16, y: u16, index: u8 },
    Up { index: u8 },
}

/// The fingers that are down after some events. A finger that comes down while it is
/// down, or that moves or is lifted while it is not, leaves no answer.
pub open spec fn touches(down: Set<u8>, events: Seq<EisTouchEvent>) -> Option<Set<u8>>
    decreases events.len(),
{
    if events.len() == 0 {
        Some(down)
    } else {
        match touches(down, events.drop_last()) {
            None => None,
            Some(now) => match events.last() {
                EisTouchEvent::Down { x, y, index } => if now.contains(index) {
                    None
                } else {
                    Some(now.insert(index))
                },
                EisTouchEvent::Motion { x, y, index } => if now.contains(index) {
                    Some(now)
                } else {
                    None
                },
                EisTouchEvent::Up { index } => if now.contains(index) {
                    Some(now.remove(index))
                } else {
                    None
                },
            },
        }
    }
}

/// Each finger of the set is lifted once, in some order, and nothing else happens.
pub open spec fn lifts_all(down: Set<u8>, events: Seq<EisTouchEvent>) -> bool {
    &&& forall|i: int| 0 <= i < events.len() ==> (#[trigger] events[i]) is Up && down.contains(
        events[i]->Up_index,
    )
    &&& forall|i: int, j: int|
        0 <= i < j < events.len() ==> (#[trigger] events[i])->Up_index != (
        #[trigger] events[j])->Up_index
    &&& forall|index: u8| #[trigger] down.contains(index) ==> events.contains(
        EisTouchEvent::Up { index },
    )
}

proof fn lifting_leaves_the_rest(down: Set<u8>, events: Seq<EisTouchEvent>)
    requires
        forall|i: int| 0 <= i < events.len() ==> (#[trigger] events[i]) is Up && down.contains(
            events[i]->Up_index,
        ),
        forall|i: int, j: int|
            0 <= i < j < events.len() ==> (#[trigger] events[i])->Up_index != (
            #[trigger] events[j])->Up_index,
    ensures
        touches(down, events) is Some,
        forall|index: u8| #[trigger]
            touches(down, events)->0.contains(index) <==> down.contains(index) && !events.contains(
                EisTouchEvent::Up { index },
            ),
    decreases events.len(),
{
    if events.len() > 0 {
        let before = events.drop_last();
        lifting_leaves_the_rest(down, before);
        let last = events.last()->Up_index;
        assert(!before.contains(EisTouchEvent::Up { index: last })) by {
            if before.contains(EisTouchEvent::Up { index: last }) {
                let i = choose|i: int|
                    0 <= i < before.len() && before[i] == (EisTouchEvent::Up { index: last });
                assert(events[i]->Up_index != events[events.len() - 1]->Up_index);
            }
        }
        assert(events[events.len() - 1] is Up);
        assert forall|index: u8|
            #![trigger events.contains(EisTouchEvent::Up { index })]
            events.contains(EisTouchEvent::Up { index }) <==> (before.contains(
                EisTouchEvent::Up { index },
            ) || index == last) by {
            let e = EisTouchEvent::Up { index };
            if before.contains(e) {
                let i = choose|i: int| 0 <= i < before.len() && before[i] == e;
                assert(events[i] == e);
            }
            if index == last {
                assert(events[events.len() - 1] == e);
            }
            if events.contains(e) {
                let i = choose|i: int| 0 <= i < events.len() && events[i] == e;
                if i < before.len() {
                    assert(before[i] == e);
                }
            }
        }
    }
}

/// When every finger that is down is lifted once, none is left.
pub proof fn lifting_all_leaves_none(down: Set<u8>, events: Seq<EisTouchEvent>)
    requires
        lifts_all(down, events),
    ensures
        touches(down, events) == Some(Set::<u8>::empty()),
{
    lifting_leaves_the_rest(down, events);
    assert(touches(down, events)->0 =~= Set::<u8>::empty());
}

/// The fingers that are down.
pub struct TouchState {
    active_slots: HashSet<u8>,
}

impl View for TouchState {
    type V = Set<u8>;

    closed spec fn view(&self) -> Set<u8> {
        self.active_slots@
    }
}

/// The event of a finger at a place, given the fingers that are down: it comes down or
/// moves.
pub open spec fn touch_event(down: Set<u8>, index: u8, x: u16, y: u16) -> EisTouchEvent {
    if down.contains(index) {
        EisTouchEvent::Motion { x, y, index }
    } else {
        EisTouchEvent::Down { x, y, index }
    }
}

impl TouchState {
    /// No finger is down.
    pub fn new() -> (s: TouchState)
        ensures
            s@ == Set::<u8>::empty(),
    {
        TouchState { active_slots: HashSet::new() }
    }

    /// A finger is at a place.
    pub fn handle_touch(&mut self, index: u8, x: u16, y: u16) -> (events: Vec<EisTouchEvent>)
        ensures
            final(self)@ == old(self)@.insert(index),
            events@ == seq![touch_event(old(self)@, index, x, y)],
            touches(old(self)@, events@) == Some(final(self)@),
    {
        let is_new = self.active_slots.insert(index);
        let mut events: Vec<EisTouchEvent> = Vec::new();
        events.push(
            if is_new {
                EisTouchEvent::Down { x, y, index }
            } else {
                EisTouchEvent::Motion { x, y, index }
            },
        );
        proof {
            reveal_with_fuel(touches, 2);
            assert(events@.drop_last() =~= Seq::<EisTouchEvent>::empty());
            if !is_new {
                assert(old(self)@.insert(index) =~= old(self)@);
            }
        }
        events
    }

    /// A finger is lifted; one that was not down makes no event.
    pub fn handle_release(&mut self, index: u8) -> (event: Option<EisTouchEvent>)
        ensures
            final(self)@ == old(self)@.remove(index),
            event == (if old(self)@.contains(index) {
                Some(EisTouchEvent::Up { index })
            } else {
                None
            }),
    {
        if self.active_slots.remove(&index) {
            Some(EisTouchEvent::Up { index })
        } else {
            assert(old(self)@.remove(index) =~= old(self)@);
            None
        }
    }

    /// Every finger is lifted.
    pub fn release_all(&mut self) -> (events: Vec<EisTouchEvent>)
        ensures
            final(self)@ == Set::<u8>::empty(),
            lifts_all(old(self)@, events@),
    {
        let mut events: Vec<EisTouchEvent> = Vec::new();
        let ghost row = vstd::std_specs::iter::IteratorSpec::remaining(&self.active_slots.iter());
        for slot in it: self.active_slots.iter()
            invariant
                it.seq() == row,
                events@.len() == it.index(),
                forall|i: int|
                    0 <= i < it.index() ==> #[trigger] events@[i] == (EisTouchEvent::Up {
                        index: *row[i],
                    }),
        {
            events.push(EisTouchEvent::Up { index: *slot });
        }
        proof {
            assert forall|i: int| 0 <= i < events@.len() implies self@.contains(
                (#[trigger] events@[i])->Up_index,
            ) by {
                assert(row.unref()[i] == *row[i]);
                assert(row.unref().to_set().contains(*row[i]));
            }
            assert forall|index: u8| #[trigger] self@.contains(index) implies events@.contains(
                EisTouchEvent::Up { index },
            ) by {
                assert(row.unref().to_set().contains(index));
                let i = choose|i: int| 0 <= i < row.unref().len() && row.unref()[i] == index;
                assert(events@[i] == (EisTouchEvent::Up { index }));
            }
        }
        self.active_slots.clear();
        events
    }
}

/// Where a number ends up between 0 and 65535.
pub open spec fn clamp_u16(n: int) -> u16 {
    if n < 0 {
        0
    } else if n > 65535 {
        65535
    } else {
        n as u16
    }
}

/// The event moved by an offset and kept on the screen.
pub open spec fn moved(event: EisTouchEvent, ox: i32, oy: i32) -> EisTouchEvent {
    match event {
        EisTouchEvent::Down { x, y, index } => EisTouchEvent::Down {
            x: clamp_u16(x + ox),
            y: clamp_u16(y + oy),
            index,
        },
        EisTouchEvent::Motion { x, y, index } => EisTouchEvent::Motion {
            x: clamp_u16(x + ox),
            y: clamp_u16(y + oy),
            index,
        },
        EisTouchEvent::Up { index } => event,
    }
}

/// Whether the coordinates of an event can be moved by an offset without leaving `i32`.
pub open spec fn movable(event: EisTouchEvent, ox: i32, oy: i32) -> bool {
    match event {
        EisTouchEvent::Down { x, y, index } => x + ox <= i32::MAX && y + oy <= i32::MAX,
        EisTouchEvent::Motion { x, y, index } => x + ox <= i32::MAX && y + oy <= i32::MAX,
        EisTouchEvent::Up { index } => true,
    }
}

/// Whether an event can be moved by an offset.
pub fn can_move(event: EisTouchEvent, offset: (i32, i32)) -> (r: bool)
    ensures
        r == movable(event, offset.0, offset.1),
{
    match event {
        EisTouchEvent::Down { x, y, .. } | EisTouchEvent::Motion { x, y, .. } => {
            x as i64 + offset.0 as i64 <= i32::MAX as i64 && y as i64 + offset.1 as i64
                <= i32::MAX as i64
        },
        EisTouchEvent::Up { .. } => true,
    }
}

fn clamp(n: i32) -> (r: u16)
    ensures
        r == clamp_u16(n as int),
{
    if n < 0 {
        0
    } else if n > 65535 {
        65535
    } else {
        n as u16
    }
}

/// The event moved by an offset and kept on the screen.
pub fn offset_touch_event(event: EisTouchEvent, offset: (i32, i32)) -> (r: EisTouchEvent)
    requires
        movable(event, offset.0, offset.1),
    ensures
        r == moved(event, offset.0, offset.1),
{
    let (ox, oy) = offset;
    match event {
        EisTouchEvent::Down { x, y, index } => EisTouchEvent::Down {
            x: clamp(x as i32 + ox),
            y: clamp(y as i32 + oy),
            index,
        },
        EisTouchEvent::Motion { x, y, index } => EisTouchEvent::Motion {
            x: clamp(x as i32 + ox),
            y: clamp(y as i32 + oy),
            index,
        },
        EisTouchEvent::Up { .. } => event,
    }
}

/// Moving events does not change which fingers are down.
pub proof fn moving_keeps_the_fingers(
    down: Set<u8>,
    events: Seq<EisTouchEvent>,
    ox: i32,
    oy: i32,
)
    ensures
        touches(down, events.map_values(|e: EisTouchEvent| moved(e, ox, oy))) == touches(
            down,
            events,
        ),
    decreases events.len(),
{
    if events.len() > 0 {
        moving_keeps_the_fingers(down, events.drop_last(), ox, oy);
        assert(events.map_values(|e: EisTouchEvent| moved(e, ox, oy)).drop_last()
            =~= events.drop_last().map_values(|e: EisTouchEvent| moved(e, ox, oy)));
    }
}

/// Moving an event adds the offset to the coordinates of a finger, be it one that comes down or
/// one that moves: where the sum is a coordinate it is the new one, and where it is not, the
/// nearest coordinate is. What happens to which finger stays the same.
pub proof fn moving_adds_the_offset(x: u16, y: u16, index: u8, ox: i32, oy: i32)
    ensures
        moved(EisTouchEvent::Down { x, y, index }, ox, oy) matches EisTouchEvent::Down {
            x: mx,
            y: my,
            index: i,
        } && i == index && (0 <= x + ox <= 65535 ==> mx == x + ox) && (x + ox < 0 ==> mx == 0) && (x
            + ox > 65535 ==> mx == 65535) && (0 <= y + oy <= 65535 ==> my == y + oy) && (y + oy < 0
            ==> my == 0) && (y + oy > 65535 ==> my == 65535),
        moved(EisTouchEvent::Motion { x, y, index }, ox, oy) matches EisTouchEvent::Motion {
            x: mx,
            y: my,
            index: i,
        } && i == index && (0 <= x + ox <= 65535 ==> mx == x + ox) && (x + ox < 0 ==> mx == 0) && (x
            + ox > 65535 ==> mx == 65535) && (0 <= y + oy <= 65535 ==> my == y + oy) && (y + oy < 0
            ==> my == 0) && (y + oy > 65535 ==> my == 65535),
        moved(EisTouchEvent::Up { index }, ox, oy) == (EisTouchEvent::Up { index }),
{
}

/// A finger that comes down at one place and moves to another goes as far after both events
/// were moved as before, where all four places lie on the screen.
pub proof fn moving_keeps_distances(
    x: u16,
    y: u16,
    to_x: u16,
    to_y: u16,
    index: u8,
    ox: i32,
    oy: i32,
)
    requires
        0 <= x + ox <= 65535,
        0 <= y + oy <= 65535,
        0 <= to_x + ox <= 65535,
        0 <= to_y + oy <= 65535,
    ensures
        ({
            let down = moved(EisTouchEvent::Down { x, y, index }, ox, oy);
            let motion = moved(EisTouchEvent::Motion { x: to_x, y: to_y, index }, ox, oy);
            &&& motion->Motion_x - down->Down_x == to_x - x
            &&& motion->Motion_y - down->Down_y == to_y - y
        }),
{
}

/// Moving an event and then moving it back gives the event itself, where it stays on the screen.
pub proof fn moving_back_undoes_moving(event: EisTouchEvent, ox: i32, oy: i32)
    requires
        ox > i32::MIN,
        oy > i32::MIN,
        event matches EisTouchEvent::Down { x, y, .. } ==> 0 <= x + ox <= 65535 && 0 <= y + oy
            <= 65535,
        event matches EisTouchEvent::Motion { x, y, .. } ==> 0 <= x + ox <= 65535 && 0 <= y + oy
            <= 65535,
    ensures
        moved(moved(event, ox, oy), (-ox) as i32, (-oy) as i32) == event,
{
}

/// The coordinates of a touch reach its event, and a finger comes down once: the first touch
/// lays it down, and every further one moves it until it is lifted.
pub proof fn touches_lay_down_and_move(down: Set<u8>, index: u8, x: u16, y: u16)
    ensures
        touch_event(down.remove(index), index, x, y) == (EisTouchEvent::Down { x, y, index }),
        touch_event(down.insert(index), index, x, y) == (EisTouchEvent::Motion { x, y, index }),
        touch_event(down, index, x, y) is Up == false,
{
}

/// An event can be moved where its coordinates stay within 32 bits; one that is lifted always can.
pub proof fn events_move_within_32_bits(x: u16, y: u16, index: u8, ox: i32, oy: i32)
    ensures
        movable(EisTouchEvent::Down { x, y, index }, ox, oy) <==> x + ox < 0x8000_0000 && y + oy
            < 0x8000_0000,
        movable(EisTouchEvent::Motion { x, y, index }, ox, oy) <==> x + ox < 0x8000_0000 && y + oy
            < 0x8000_0000,
        movable(EisTouchEvent::Up { index }, ox, oy),
{
}

} // verus!
