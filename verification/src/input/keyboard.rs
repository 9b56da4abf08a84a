//! The keyboard: the keys that are down, live and in the snapshot.
use vstd::prelude::*;

use crate::event::{ElementState, Event, React, VirtualKeyCode};
use crate::input::state::{
    elements_only_in,
    insert_element,
    lemma_difference_distinct,
    holds,
    only_in,
    other_than,
    remove_element,
    CompositeState,
    Element,
    Input,
    InputDifference,
    InputState,
    Snapshot,
};

verus! {

impl Element for VirtualKeyCode {
    type State = ElementState;

    fn same(&self, other: &VirtualKeyCode) -> (r: bool) {
        *self == *other
    }
}

/// The keys that are down.
pub struct KeyboardState {
    keys: Vec<VirtualKeyCode>,
}

impl KeyboardState {
    fn new() -> (r: Self)
        ensures
            r.down_keys() == Seq::<VirtualKeyCode>::empty(),
    {
        KeyboardState { keys: Vec::new() }
    }

    /// The keys that are down, in the order in which they went down.
    pub closed spec fn down_keys(&self) -> Seq<VirtualKeyCode> {
        self.keys@
    }

    fn duplicate(&self) -> (r: Self)
        ensures
            r.down_keys() == self.down_keys(),
    {
        let mut keys = Vec::new();
        let mut i: usize = 0;
        while i < self.keys.len()
            invariant
                i <= self.keys.len(),
                keys@ == self.keys@.subrange(0, i as int),
            decreases self.keys.len() - i,
        {
            keys.push(self.keys[i]);
            i = i + 1;
            assert(keys@ =~= self.keys@.subrange(0, i as int));
        }
        assert(self.keys@.subrange(0, self.keys.len() as int) =~= self.keys@);
        KeyboardState { keys }
    }
}

impl CompositeState<VirtualKeyCode> for KeyboardState {
    type Composite = Vec<VirtualKeyCode>;

    open spec fn down_elements(&self) -> Seq<VirtualKeyCode> {
        self.down_keys()
    }

    fn composite(&self) -> (r: &Vec<VirtualKeyCode>)
        ensures
            r@ == self.down_keys(),
    {
        &self.keys
    }
}

impl InputState<VirtualKeyCode> for KeyboardState {
    open spec fn state_of(&self, key: VirtualKeyCode) -> ElementState {
        if self.down_keys().contains(key) {
            ElementState::Pressed
        } else {
            ElementState::Released
        }
    }

    fn state(&self, key: VirtualKeyCode) -> (r: ElementState) {
        if holds(&self.keys, key) {
            ElementState::Pressed
        } else {
            ElementState::Released
        }
    }
}

/// The keyboard.
pub struct Keyboard {
    live: KeyboardState,
    snapshot: KeyboardState,
}

/// The keys that are down after `event`, where `keys` were down before.
pub open spec fn keys_after(keys: Seq<VirtualKeyCode>, event: Event) -> Seq<VirtualKeyCode> {
    match event {
        Event::KeyboardInput(ElementState::Pressed, _, Some(key)) => if keys.contains(key) {
            keys
        } else {
            keys.push(key)
        },
        Event::KeyboardInput(ElementState::Released, _, Some(key)) => keys.filter(
            other_than(key),
        ),
        _ => keys,
    }
}

impl Keyboard {
    #[verifier::type_invariant]
    spec fn wf(self) -> bool {
        &&& self.live.keys@.no_duplicates()
        &&& self.snapshot.keys@.no_duplicates()
    }

    /// A keyboard with no key down.
    pub fn new() -> (r: Self)
        ensures
            r.live_state().down_keys() == Seq::<VirtualKeyCode>::empty(),
            r.snapshot_state().down_keys() == Seq::<VirtualKeyCode>::empty(),
    {
        Keyboard { live: KeyboardState::new(), snapshot: KeyboardState::new() }
    }
}

impl Default for Keyboard {
    fn default() -> (r: Self)
        ensures
            r.live_state().down_keys() == Seq::<VirtualKeyCode>::empty(),
            r.snapshot_state().down_keys() == Seq::<VirtualKeyCode>::empty(),
    {
        Keyboard::new()
    }
}

impl React for Keyboard {
    /// A key going down or up goes into or out of the live state.
    fn react(&mut self, event: &Event)
        ensures
            final(self).live_state().down_keys() == keys_after(
                old(self).live_state().down_keys(),
                *event,
            ),
            final(self).snapshot_state() == old(self).snapshot_state(),
    {
        proof {
            use_type_invariant(&*self);
        }
        if let Event::KeyboardInput(state, _, Some(key)) = *event {
            let mut live = KeyboardState::new();
            std::mem::swap(&mut live, &mut self.live);
            match state {
                ElementState::Pressed => {
                    insert_element(&mut live.keys, key);
                },
                ElementState::Released => {
                    remove_element(&mut live.keys, key);
                },
            }
            self.live = live;
        }
    }
}

impl Snapshot for Keyboard {
    /// The snapshot takes the live state.
    fn snapshot(&mut self)
        ensures
            final(self).snapshot_state().down_keys() == old(self).live_state().down_keys(),
            final(self).live_state() == old(self).live_state(),
    {
        proof {
            use_type_invariant(&*self);
        }
        self.snapshot = self.live.duplicate();
    }
}

impl Input for Keyboard {
    type State = KeyboardState;

    closed spec fn live_state(&self) -> KeyboardState {
        self.live
    }

    closed spec fn snapshot_state(&self) -> KeyboardState {
        self.snapshot
    }

    fn live(&self) -> (r: &KeyboardState)
        ensures
            r.down_keys().no_duplicates(),
    {
        proof {
            use_type_invariant(self);
        }
        &self.live
    }

    fn snapshot(&self) -> (r: &KeyboardState)
        ensures
            r.down_keys().no_duplicates(),
    {
        proof {
            use_type_invariant(self);
        }
        &self.snapshot
    }
}

impl InputDifference<VirtualKeyCode> for Keyboard {
    type Difference = Vec<(VirtualKeyCode, ElementState)>;

    /// The keys that went down since the snapshot, then those that went up,
    /// each with its live state; each key comes once.
    open spec fn is_difference(&self, r: Vec<(VirtualKeyCode, ElementState)>) -> bool {
        r@ == only_in(
            self.live_state().down_keys(),
            self.snapshot_state().down_keys(),
            ElementState::Pressed,
        ) + only_in(
            self.snapshot_state().down_keys(),
            self.live_state().down_keys(),
            ElementState::Released,
        ) && r@.no_duplicates()
    }

    fn difference(&self) -> (r: Vec<(VirtualKeyCode, ElementState)>) {
        proof {
            use_type_invariant(self);
            lemma_difference_distinct(self.live.keys@, self.snapshot.keys@);
        }
        let mut down = elements_only_in(&self.live.keys, &self.snapshot.keys, ElementState::Pressed);
        let mut up = elements_only_in(&self.snapshot.keys, &self.live.keys, ElementState::Released);
        down.append(&mut up);
        down
    }
}

} // verus!
