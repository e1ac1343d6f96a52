//! The slot tracker and the state machine that runs one gesture per slot.

use vstd::prelude::*;
use crate::edge::EDGE_THRESHOLD;
use crate::gesture::Gesture;
use crate::trigger::{fired, matching_commands, texts, Trigger};
use crate::percent::Percent;

verus! {

/// Number of touch slots that are tracked. Events for higher slots are
/// ignored.
pub const MAX_TOUCHES: usize = 10;

/// Default distance that a swipe must exceed: four percent.
pub const DEFAULT_MIN_DISTANCE: i32 = 4_000;

/// A touch event as the device layer reports it, with the position in
/// percent of the screen. A device that does not number its contacts
/// reports no slot; such events belong to slot 0.
#[derive(Clone, Copy, Debug, PartialEq, Eq, Structural)]
pub enum TouchEvent {
    /// A finger has landed at `(x, y)`.
    Down { slot: Option<u32>, x: Percent, y: Percent },
    /// A finger has moved to `(x, y)`.
    Motion { slot: Option<u32>, x: Percent, y: Percent },
    /// A finger has lifted.
    Up { slot: Option<u32> },
}

/// The index of the slot that a device names: slot 0 where it names none.
pub open spec fn slot_index(slot: Option<u32>) -> int {
    match slot {
        Some(number) => number as int,
        None => 0,
    }
}

/// The gesture that `slot` holds, if the slot exists and is tracking.
pub open spec fn gesture_at(slots: Seq<Option<Gesture>>, slot: int) -> Option<Gesture> {
    if 0 <= slot < slots.len() {
        slots[slot]
    } else {
        None
    }
}

/// The slots after a finger has landed at `(x, y)` in `slot`: a gesture
/// starts there if the slot exists and the point lies at an edge.
pub open spec fn after_down(slots: Seq<Option<Gesture>>, slot: int, x: Percent, y: Percent) -> Seq<
    Option<Gesture>,
> {
    if 0 <= slot < slots.len() {
        match Gesture::begun_at(x, y, EDGE_THRESHOLD) {
            Some(gesture) => slots.update(slot, Some(gesture)),
            None => slots,
        }
    } else {
        slots
    }
}

/// The slots after the finger in `slot` has moved to `(x, y)`: a tracked
/// gesture follows it.
pub open spec fn after_motion(slots: Seq<Option<Gesture>>, slot: int, x: Percent, y: Percent) -> Seq<
    Option<Gesture>,
> {
    match gesture_at(slots, slot) {
        Some(gesture) => slots.update(slot, Some(gesture.moved_to(x, y))),
        None => slots,
    }
}

/// The slots after the finger in `slot` has lifted: the slot is free.
pub open spec fn after_up(slots: Seq<Option<Gesture>>, slot: int) -> Seq<Option<Gesture>> {
    match gesture_at(slots, slot) {
        Some(_) => slots.update(slot, None),
        None => slots,
    }
}

/// The commands set off when the finger in `slot` lifts.
pub open spec fn commands_on_up(
    slots: Seq<Option<Gesture>>,
    triggers: Seq<Trigger>,
    min_distance: int,
    slot: int,
) -> Seq<Seq<char>> {
    match gesture_at(slots, slot) {
        Some(gesture) => fired(triggers, gesture, min_distance),
        None => Seq::empty(),
    }
}

/// The slots after an event.
pub open spec fn slots_after(slots: Seq<Option<Gesture>>, event: TouchEvent) -> Seq<
    Option<Gesture>,
> {
    match event {
        TouchEvent::Down { slot, x, y } => after_down(slots, slot_index(slot), x, y),
        TouchEvent::Motion { slot, x, y } => after_motion(slots, slot_index(slot), x, y),
        TouchEvent::Up { slot } => after_up(slots, slot_index(slot)),
    }
}

/// The commands that an event sets off. Only a lifting finger sets off any.
pub open spec fn commands_after(
    slots: Seq<Option<Gesture>>,
    triggers: Seq<Trigger>,
    min_distance: int,
    event: TouchEvent,
) -> Seq<Seq<char>> {
    match event {
        TouchEvent::Up { slot } => commands_on_up(slots, triggers, min_distance, slot_index(slot)),
        _ => Seq::empty(),
    }
}

/// Tracks up to [`MAX_TOUCHES`] simultaneous gestures and judges each one
/// against the trigger table when its finger lifts.
pub struct Handler {
    touches: Vec<Option<Gesture>>,
    triggers: Vec<Trigger>,
    min_distance: i32,
}

impl Handler {
    #[verifier::type_invariant]
    spec fn has_all_slots(self) -> bool {
        self.touches@.len() == MAX_TOUCHES
    }

    /// What each slot holds.
    pub closed spec fn slots(self) -> Seq<Option<Gesture>> {
        self.touches@
    }

    /// The trigger table, in configuration order.
    pub closed spec fn triggers(self) -> Seq<Trigger> {
        self.triggers@
    }

    /// The distance that a swipe must exceed.
    pub closed spec fn min_distance(self) -> int {
        self.min_distance as int
    }

    /// A handler with every slot free. `min_distance` is in units.
    pub fn new(triggers: Vec<Trigger>, min_distance: i32) -> (handler: Handler)
        ensures
            handler.slots() == Seq::new(MAX_TOUCHES as nat, |i: int| None::<Gesture>),
            handler.triggers() == triggers@,
            handler.min_distance() == min_distance,
    {
        let mut touches: Vec<Option<Gesture>> = Vec::new();
        let mut i: usize = 0;
        while i < MAX_TOUCHES
            invariant
                i <= MAX_TOUCHES,
                touches@ == Seq::new(i as nat, |i: int| None::<Gesture>),
            decreases MAX_TOUCHES - i,
        {
            touches.push(None);
            i = i + 1;
        }
        Handler { touches, triggers, min_distance }
    }

    /// The gesture in `slot`, if one is tracked there.
    pub fn gesture_in(&self, slot: usize) -> (gesture: Option<Gesture>)
        ensures
            gesture == gesture_at(self.slots(), slot as int),
            self.slots().len() == MAX_TOUCHES,
            slot >= MAX_TOUCHES ==> gesture is None,
    {
        proof {
            use_type_invariant(self);
        }
        if slot < MAX_TOUCHES {
            self.touches[slot]
        } else {
            None
        }
    }

    /// The trigger table.
    pub fn trigger_table(&self) -> (table: &Vec<Trigger>)
        ensures
            table@ == self.triggers(),
    {
        &self.triggers
    }

    /// The distance that a swipe must exceed.
    pub fn swipe_distance(&self) -> (distance: i32)
        ensures
            distance == self.min_distance(),
    {
        self.min_distance
    }

    /// A finger has landed at `(x, y)` in `slot`. If the point lies at an
    /// edge, the slot starts tracking a new gesture from there. A slot
    /// beyond the last, or a touch in the interior, changes nothing.
    pub fn touch_down(&mut self, slot: usize, x: Percent, y: Percent)
        ensures
            final(self).slots() == after_down(old(self).slots(), slot as int, x, y),
            final(self).slots().len() == MAX_TOUCHES,
            final(self).triggers() == old(self).triggers(),
            final(self).min_distance() == old(self).min_distance(),
            slot >= MAX_TOUCHES ==> final(self).slots() == old(self).slots(),
            forall|other: int|
                0 <= other < MAX_TOUCHES && other != slot ==> final(self).slots()[other] == old(
                    self,
                ).slots()[other],
    {
        proof {
            use_type_invariant(&*self);
        }
        if slot >= MAX_TOUCHES {
            return ;
        }
        match Gesture::begin(x, y, EDGE_THRESHOLD) {
            Some(gesture) => {
                self.touches[slot] = Some(gesture);
            },
            None => {},
        }
    }

    /// The finger in `slot` has moved to `(x, y)`. A tracked gesture takes
    /// the new position and keeps its start and its edge. A slot beyond the
    /// last, or one that tracks nothing, changes nothing.
    pub fn touch_motion(&mut self, slot: usize, x: Percent, y: Percent)
        ensures
            final(self).slots() == after_motion(old(self).slots(), slot as int, x, y),
            final(self).slots().len() == MAX_TOUCHES,
            final(self).triggers() == old(self).triggers(),
            final(self).min_distance() == old(self).min_distance(),
            slot >= MAX_TOUCHES ==> final(self).slots() == old(self).slots(),
            gesture_at(old(self).slots(), slot as int) is None ==> final(self).slots() == old(
                self,
            ).slots(),
            forall|other: int|
                0 <= other < MAX_TOUCHES && other != slot ==> final(self).slots()[other] == old(
                    self,
                ).slots()[other],
    {
        proof {
            use_type_invariant(&*self);
        }
        if slot >= MAX_TOUCHES {
            return ;
        }
        match self.touches[slot] {
            Some(gesture) => {
                let mut moved = gesture;
                moved.move_to(x, y);
                self.touches[slot] = Some(moved);
            },
            None => {},
        }
    }

    /// The finger in `slot` has lifted. A tracked gesture leaves its slot,
    /// whether or not anything fires, and is judged: the result holds the
    /// commands to run, in table order. A slot beyond the last, or one that
    /// tracks nothing, changes nothing and yields no command.
    pub fn touch_up(&mut self, slot: usize) -> (commands: Vec<String>)
        ensures
            final(self).slots() == after_up(old(self).slots(), slot as int),
            texts(commands@) == commands_on_up(
                old(self).slots(),
                old(self).triggers(),
                old(self).min_distance(),
                slot as int,
            ),
            commands@.len() == commands_on_up(
                old(self).slots(),
                old(self).triggers(),
                old(self).min_distance(),
                slot as int,
            ).len(),
            final(self).slots().len() == MAX_TOUCHES,
            final(self).triggers() == old(self).triggers(),
            final(self).min_distance() == old(self).min_distance(),
            gesture_at(final(self).slots(), slot as int) is None,
            slot >= MAX_TOUCHES ==> final(self).slots() == old(self).slots() && commands@.len()
                == 0,
            gesture_at(old(self).slots(), slot as int) is None ==> final(self).slots() == old(
                self,
            ).slots() && commands@.len() == 0,
            forall|other: int|
                0 <= other < MAX_TOUCHES && other != slot ==> final(self).slots()[other] == old(
                    self,
                ).slots()[other],
    {
        proof {
            use_type_invariant(&*self);
        }
        if slot >= MAX_TOUCHES {
            return no_commands();
        }
        match self.touches[slot] {
            Some(gesture) => {
                self.touches[slot] = None;
                let commands = matching_commands(&self.triggers, &gesture, self.min_distance);
                assert(texts(commands@).len() == commands@.len());
                commands
            },
            None => {
                no_commands()
            },
        }
    }

    /// Feeds one event to the state machine and returns the commands to
    /// run because of it.
    pub fn handle(&mut self, event: TouchEvent) -> (commands: Vec<String>)
        ensures
            final(self).slots() == slots_after(old(self).slots(), event),
            texts(commands@) == commands_after(
                old(self).slots(),
                old(self).triggers(),
                old(self).min_distance(),
                event,
            ),
            final(self).slots().len() == MAX_TOUCHES,
            final(self).triggers() == old(self).triggers(),
            final(self).min_distance() == old(self).min_distance(),
    {
        match event {
            TouchEvent::Down { slot, x, y } => {
                self.touch_down(index_of(slot), x, y);
                no_commands()
            },
            TouchEvent::Motion { slot, x, y } => {
                self.touch_motion(index_of(slot), x, y);
                no_commands()
            },
            TouchEvent::Up { slot } => self.touch_up(index_of(slot)),
        }
    }
}

/// An empty list of commands.
fn no_commands() -> (commands: Vec<String>)
    ensures
        commands@.len() == 0,
        texts(commands@) == Seq::<Seq<char>>::empty(),
{
    let commands: Vec<String> = Vec::new();
    assert(texts(commands@) =~= Seq::<Seq<char>>::empty());
    commands
}

/// Computes [`slot_index`].
pub fn index_of(slot: Option<u32>) -> (index: usize)
    ensures
        index == slot_index(slot),
{
    match slot {
        Some(number) => number as usize,
        None => 0,
    }
}

/// The slot that an event belongs to.
pub open spec fn event_slot(event: TouchEvent) -> int {
    match event {
        TouchEvent::Down { slot, .. } => slot_index(slot),
        TouchEvent::Motion { slot, .. } => slot_index(slot),
        TouchEvent::Up { slot } => slot_index(slot),
    }
}

/// An event changes no slot but its own.
pub proof fn lemma_event_touches_own_slot_only(
    slots: Seq<Option<Gesture>>,
    event: TouchEvent,
    other: int,
)
    requires
        other != event_slot(event),
    ensures
        slots_after(slots, event).len() == slots.len(),
        gesture_at(slots_after(slots, event), other) == gesture_at(slots, other),
{
}

/// Gestures in different slots do not interfere: what an event does to its
/// slot, and the commands it sets off, are the same whether or not an event
/// for another slot came first, and the two events can be taken in either
/// order.
pub proof fn lemma_slots_do_not_interfere(
    slots: Seq<Option<Gesture>>,
    triggers: Seq<Trigger>,
    min_distance: int,
    first: TouchEvent,
    second: TouchEvent,
)
    requires
        event_slot(first) != event_slot(second),
    ensures
        gesture_at(slots_after(slots_after(slots, first), second), event_slot(second))
            == gesture_at(slots_after(slots, second), event_slot(second)),
        commands_after(slots_after(slots, first), triggers, min_distance, second)
            == commands_after(slots, triggers, min_distance, second),
        slots_after(slots_after(slots, first), second) == slots_after(
            slots_after(slots, second),
            first,
        ),
{
    assert(gesture_at(slots_after(slots, first), event_slot(second)) == gesture_at(
        slots,
        event_slot(second),
    ));
    assert(gesture_at(slots_after(slots, second), event_slot(first)) == gesture_at(
        slots,
        event_slot(first),
    ));
    assert(slots_after(slots_after(slots, first), second) =~= slots_after(
        slots_after(slots, second),
        first,
    ));
}

/// Lifting the finger in one slot leaves the gesture of every other slot
/// as it was.
pub proof fn lemma_release_leaves_others(slots: Seq<Option<Gesture>>, released: int, other: int)
    requires
        released != other,
    ensures
        gesture_at(after_up(slots, released), other) == gesture_at(slots, other),
{
}

/// An event for a slot that does not exist changes nothing and sets off
/// nothing: no gesture is ever kept for it.
pub proof fn lemma_event_beyond_capacity_ignored(
    slots: Seq<Option<Gesture>>,
    triggers: Seq<Trigger>,
    min_distance: int,
    event: TouchEvent,
)
    requires
        event_slot(event) >= slots.len(),
    ensures
        slots_after(slots, event) == slots,
        commands_after(slots, triggers, min_distance, event).len() == 0,
        gesture_at(slots_after(slots, event), event_slot(event)) is None,
{
}

/// Lifting a finger from a slot that tracks nothing changes nothing and
/// sets off nothing. So a second release directly after the first is idle:
/// no command is given twice.
pub proof fn lemma_release_is_idempotent(
    slots: Seq<Option<Gesture>>,
    triggers: Seq<Trigger>,
    min_distance: int,
    slot: int,
)
    ensures
        gesture_at(slots, slot) is None ==> after_up(slots, slot) == slots && commands_on_up(
            slots,
            triggers,
            min_distance,
            slot,
        ).len() == 0,
        gesture_at(after_up(slots, slot), slot) is None,
        after_up(after_up(slots, slot), slot) == after_up(slots, slot),
        commands_on_up(after_up(slots, slot), triggers, min_distance, slot).len() == 0,
{
}

/// A touch that lands in the interior is ignored for good: the slot stays
/// as it was, and if it was free, the motion and the release that follow
/// do nothing either.
pub proof fn lemma_interior_touch_ignored(
    slots: Seq<Option<Gesture>>,
    triggers: Seq<Trigger>,
    min_distance: int,
    slot: int,
    x: Percent,
    y: Percent,
    x2: Percent,
    y2: Percent,
)
    requires
        Gesture::begun_at(x, y, EDGE_THRESHOLD) is None,
    ensures
        after_down(slots, slot, x, y) == slots,
        gesture_at(slots, slot) is None ==> {
            &&& after_motion(after_down(slots, slot, x, y), slot, x2, y2) == slots
            &&& after_up(after_down(slots, slot, x, y), slot) == slots
            &&& commands_on_up(after_down(slots, slot, x, y), triggers, min_distance, slot).len()
                == 0
        },
{
}

} // verus!
