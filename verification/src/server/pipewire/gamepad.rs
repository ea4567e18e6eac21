//! Virtual gamepads: a device is created with the first snapshot of its number.
use crate::text;
use std::collections::HashSet;
use vstd::prelude::*;

verus! {

broadcast use vstd::std_specs::hash::group_hash_axioms;

/// The numbers of the gamepads that exist.
pub struct GamepadManager {
    gamepads: HashSet<u8>,
}

impl View for GamepadManager {
    type V = Set<u8>;

    closed spec fn view(&self) -> Set<u8> {
        self.gamepads@
    }
}

impl GamepadManager {
    /// There are no gamepads.
    pub fn new() -> (m: GamepadManager)
        ensures
            m@ == Set::<u8>::empty(),
    {
        GamepadManager { gamepads: HashSet::new() }
    }

    /// A snapshot of gamepad `id` arrives; says whether its device is to be created first.
    pub fn update(&mut self, id: u8) -> (create: bool)
        ensures
            create == !old(self)@.contains(id),
            final(self)@ == old(self)@.insert(id),
    {
        self.gamepads.insert(id)
    }

    /// Gamepad `id` is gone; says whether there was a device to remove.
    pub fn remove(&mut self, id: u8) -> (removed: bool)
        ensures
            removed == old(self)@.contains(id),
            final(self)@ == old(self)@.remove(id),
    {
        let removed = self.gamepads.remove(&id);
        assert(!removed ==> old(self)@.remove(id) =~= old(self)@);
        removed
    }
}

/// The name of a virtual gamepad.
pub fn device_name(id: u8) -> (s: String)
    ensures
        s@ == "Webshooter Gamepad "@ + text::decimal(id as nat),
{
    let mut s = "Webshooter Gamepad ".to_owned();
    text::push_decimal(&mut s, id as u64);
    s
}

} // verus!
