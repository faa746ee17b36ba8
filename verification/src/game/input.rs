use std::collections::HashSet;
use vstd::prelude::*;

verus! {

broadcast use vstd::std_specs::hash::group_hash_axioms;

/// The keys held down, each named by a key code.
pub struct KeyBuffer {
    down: HashSet<u32>,
}

impl View for KeyBuffer {
    type V = Set<u32>;

    closed spec fn view(&self) -> Set<u32> {
        self.down@
    }
}

/// 1 where `down`, else 0.
pub open spec fn held(down: bool) -> int {
    if down {
        1
    } else {
        0
    }
}

impl KeyBuffer {
    /// No key is down.
    pub fn new() -> (keys: Self)
        ensures
            keys@ == Set::<u32>::empty(),
    {
        KeyBuffer { down: HashSet::new() }
    }

    /// Key `code` went down.
    pub fn press(&mut self, code: u32)
        ensures
            final(self)@ == old(self)@.insert(code),
    {
        self.down.insert(code);
    }

    /// Key `code` came up.
    pub fn release(&mut self, code: u32)
        ensures
            final(self)@ == old(self)@.remove(code),
    {
        self.down.remove(&code);
    }

    /// Whether key `code` is down.
    pub fn is_down(&self, code: u32) -> (down: bool)
        ensures
            down == self@.contains(code),
    {
        self.down.contains(&code)
    }

    /// An input axis driven by two keys: +1 while only `positive` is down,
    /// -1 while only `negative` is, 0 otherwise.
    pub fn axis(&self, positive: u32, negative: u32) -> (axis: i32)
        ensures
            axis == held(self@.contains(positive)) - held(self@.contains(negative)),
    {
        let up: i32 = if self.is_down(positive) { 1 } else { 0 };
        let down: i32 = if self.is_down(negative) { 1 } else { 0 };
        up - down
    }
}

/// A key reads as down once pressed and as up once released, whatever came
/// before; an axis is always -1, 0 or 1.
pub proof fn law_press_release(keys: Set<u32>, code: u32, positive: u32, negative: u32)
    ensures
        keys.insert(code).contains(code),
        !keys.remove(code).contains(code),
        -1 <= held(keys.contains(positive)) - held(keys.contains(negative)) <= 1,
        positive == negative ==> held(keys.contains(positive)) - held(keys.contains(negative)) == 0,
{
}

} // verus!
