//! The mouse: its buttons, the position of its pointer and whether the
//! pointer is in the window, live and in the snapshot.
use vstd::prelude::*;

use crate::event::{ElementState, Event, MouseButton, React};
use crate::input::state::{
    elements_only_in,
    holds,
    insert_element,
    lemma_difference_distinct,
    only_in,
    other_than,
    remove_element,
    CompositeState,
    Element,
    Input,
    InputDifference,
    InputState,
    InputTransition,
    Snapshot,
    State,
};
use crate::BoolExt;

verus! {

/// A position of the pointer in the window.
#[derive(Clone, Copy, Debug, PartialEq, Eq, Structural)]
pub struct Point2 {
    pub x: i32,
    pub y: i32,
}

/// A movement of the pointer.
#[derive(Clone, Copy, Debug, PartialEq, Eq, Structural)]
pub struct Vector2 {
    pub x: i32,
    pub y: i32,
}

impl State for Point2 {
    type Difference = Vector2;

    fn transition(live: Point2, snapshot: Point2) -> (r: Option<Point2>) {
        if live == snapshot {
            None
        } else {
            Some(live)
        }
    }
}

impl Element for MouseButton {
    type State = ElementState;

    fn same(&self, other: &MouseButton) -> (r: bool) {
        *self == *other
    }
}

/// Mouse position (pointer) element.
#[derive(Clone, Copy, Debug, PartialEq, Eq, Structural)]
pub struct MousePosition;

impl Element for MousePosition {
    type State = Point2;

    fn same(&self, other: &MousePosition) -> (r: bool) {
        true
    }
}

/// Mouse proximity element: whether the pointer is within the bounds of the
/// window.
#[derive(Clone, Copy, Debug, PartialEq, Eq, Structural)]
pub struct MouseProximity;

impl Element for MouseProximity {
    type State = bool;

    fn same(&self, other: &MouseProximity) -> (r: bool) {
        true
    }
}

/// The buttons that are down, the position of the pointer and whether it is
/// in the window.
pub struct MouseState {
    buttons: Vec<MouseButton>,
    position: Point2,
    proximity: bool,
}

impl MouseState {
    fn new() -> (r: Self)
        ensures
            r.down_buttons() == Seq::<MouseButton>::empty(),
            r.position_spec() == (Point2 { x: 0, y: 0 }),
            !r.proximity_spec(),
    {
        MouseState { buttons: Vec::new(), position: Point2 { x: 0, y: 0 }, proximity: false }
    }

    /// The buttons that are down, in the order in which they went down.
    pub closed spec fn down_buttons(&self) -> Seq<MouseButton> {
        self.buttons@
    }

    /// The position of the pointer.
    pub closed spec fn position_spec(&self) -> Point2 {
        self.position
    }

    /// Whether the pointer is in the window.
    pub closed spec fn proximity_spec(&self) -> bool {
        self.proximity
    }

    fn duplicate(&self) -> (r: Self)
        ensures
            r.down_buttons() == self.down_buttons(),
            r.position_spec() == self.position_spec(),
            r.proximity_spec() == self.proximity_spec(),
    {
        let mut buttons = Vec::new();
        let mut i: usize = 0;
        while i < self.buttons.len()
            invariant
                i <= self.buttons.len(),
                buttons@ == self.buttons@.subrange(0, i as int),
            decreases self.buttons.len() - i,
        {
            buttons.push(self.buttons[i]);
            i = i + 1;
            assert(buttons@ =~= self.buttons@.subrange(0, i as int));
        }
        assert(self.buttons@.subrange(0, self.buttons.len() as int) =~= self.buttons@);
        MouseState { buttons, position: self.position, proximity: self.proximity }
    }
}

impl CompositeState<MouseButton> for MouseState {
    type Composite = Vec<MouseButton>;

    open spec fn down_elements(&self) -> Seq<MouseButton> {
        self.down_buttons()
    }

    fn composite(&self) -> (r: &Vec<MouseButton>)
        ensures
            r@ == self.down_buttons(),
    {
        &self.buttons
    }
}

impl InputState<MouseButton> for MouseState {
    open spec fn state_of(&self, button: MouseButton) -> ElementState {
        if self.down_buttons().contains(button) {
            ElementState::Pressed
        } else {
            ElementState::Released
        }
    }

    fn state(&self, button: MouseButton) -> (r: ElementState) {
        if holds(&self.buttons, button) {
            ElementState::Pressed
        } else {
            ElementState::Released
        }
    }
}

impl InputState<MousePosition> for MouseState {
    open spec fn state_of(&self, element: MousePosition) -> Point2 {
        self.position_spec()
    }

    fn state(&self, element: MousePosition) -> (r: Point2) {
        self.position
    }
}

impl InputState<MouseProximity> for MouseState {
    open spec fn state_of(&self, element: MouseProximity) -> bool {
        self.proximity_spec()
    }

    fn state(&self, element: MouseProximity) -> (r: bool) {
        self.proximity
    }
}

/// The mouse.
pub struct Mouse {
    live: MouseState,
    snapshot: MouseState,
}

/// The buttons that are down after `event`, where `buttons` were down before.
pub open spec fn buttons_after(buttons: Seq<MouseButton>, event: Event) -> Seq<MouseButton> {
    match event {
        Event::MouseInput(ElementState::Pressed, button) => if buttons.contains(button) {
            buttons
        } else {
            buttons.push(button)
        },
        Event::MouseInput(ElementState::Released, button) => buttons.filter(other_than(button)),
        _ => buttons,
    }
}

/// The position of the pointer after `event`.
pub open spec fn position_after(position: Point2, event: Event) -> Point2 {
    match event {
        Event::MouseMoved(x, y) => Point2 { x, y },
        _ => position,
    }
}

/// Whether the pointer is in the window after `event`.
pub open spec fn proximity_after(proximity: bool, event: Event) -> bool {
    match event {
        Event::MouseEntered => true,
        Event::MouseLeft => false,
        _ => proximity,
    }
}

/// The movement from `from` to `to`, each coordinate wrapping round.
pub open spec fn movement(from: Point2, to: Point2) -> Vector2 {
    Vector2 {
        x: to.x.wrapping_sub(from.x),
        y: to.y.wrapping_sub(from.y),
    }
}

/// A pointer that stayed where it was has not moved.
pub proof fn lemma_no_movement_in_place(p: Point2)
    ensures
        movement(p, p) == (Vector2 { x: 0, y: 0 }),
{
    assert(p.x.wrapping_sub(p.x) == 0);
    assert(p.y.wrapping_sub(p.y) == 0);
}

impl Mouse {
    #[verifier::type_invariant]
    spec fn wf(self) -> bool {
        &&& self.live.buttons@.no_duplicates()
        &&& self.snapshot.buttons@.no_duplicates()
    }

    /// A mouse with no button down, its pointer at the origin and out of the
    /// window.
    pub fn new() -> (r: Self)
        ensures
            r.live_state().down_buttons() == Seq::<MouseButton>::empty(),
            r.live_state().position_spec() == (Point2 { x: 0, y: 0 }),
            !r.live_state().proximity_spec(),
            r.snapshot_state().down_buttons() == Seq::<MouseButton>::empty(),
            r.snapshot_state().position_spec() == (Point2 { x: 0, y: 0 }),
            !r.snapshot_state().proximity_spec(),
    {
        Mouse { live: MouseState::new(), snapshot: MouseState::new() }
    }
}

impl Default for Mouse {
    fn default() -> (r: Self)
        ensures
            r.live_state().down_buttons() == Seq::<MouseButton>::empty(),
            r.live_state().position_spec() == (Point2 { x: 0, y: 0 }),
            !r.live_state().proximity_spec(),
            r.snapshot_state().down_buttons() == Seq::<MouseButton>::empty(),
            r.snapshot_state().position_spec() == (Point2 { x: 0, y: 0 }),
            !r.snapshot_state().proximity_spec(),
    {
        Mouse::new()
    }
}

impl React for Mouse {
    /// Buttons, pointer movements and the pointer entering or leaving the
    /// window change the live state.
    fn react(&mut self, event: &Event)
        ensures
            final(self).live_state().down_buttons() == buttons_after(
                old(self).live_state().down_buttons(),
                *event,
            ),
            final(self).live_state().position_spec() == position_after(
                old(self).live_state().position_spec(),
                *event,
            ),
            final(self).live_state().proximity_spec() == proximity_after(
                old(self).live_state().proximity_spec(),
                *event,
            ),
            final(self).snapshot_state() == old(self).snapshot_state(),
    {
        proof {
            use_type_invariant(&*self);
        }
        match *event {
            Event::MouseEntered => {
                self.live.proximity = true;
            },
            Event::MouseInput(ElementState::Pressed, button) => {
                let mut live = MouseState::new();
                std::mem::swap(&mut live, &mut self.live);
                insert_element(&mut live.buttons, button);
                self.live = live;
            },
            Event::MouseInput(ElementState::Released, button) => {
                let mut live = MouseState::new();
                std::mem::swap(&mut live, &mut self.live);
                remove_element(&mut live.buttons, button);
                self.live = live;
            },
            Event::MouseLeft => {
                self.live.proximity = false;
            },
            Event::MouseMoved(x, y) => {
                self.live.position = Point2 { x, y };
            },
            _ => {},
        }
    }
}

impl Snapshot for Mouse {
    /// The snapshot takes the live state.
    fn snapshot(&mut self)
        ensures
            final(self).snapshot_state().down_buttons() == old(self).live_state().down_buttons(),
            final(self).snapshot_state().position_spec() == old(self).live_state().position_spec(),
            final(self).snapshot_state().proximity_spec() == old(self).live_state().proximity_spec(),
            final(self).live_state() == old(self).live_state(),
    {
        proof {
            use_type_invariant(&*self);
        }
        self.snapshot = self.live.duplicate();
    }
}

impl Input for Mouse {
    type State = MouseState;

    closed spec fn live_state(&self) -> MouseState {
        self.live
    }

    closed spec fn snapshot_state(&self) -> MouseState {
        self.snapshot
    }

    fn live(&self) -> (r: &MouseState)
        ensures
            r.down_buttons().no_duplicates(),
    {
        proof {
            use_type_invariant(self);
        }
        &self.live
    }

    fn snapshot(&self) -> (r: &MouseState)
        ensures
            r.down_buttons().no_duplicates(),
    {
        proof {
            use_type_invariant(self);
        }
        &self.snapshot
    }
}

impl InputDifference<MouseButton> for Mouse {
    type Difference = Vec<(MouseButton, ElementState)>;

    /// The buttons that went down since the snapshot, then those that went
    /// up, each with its live state; each button comes once.
    open spec fn is_difference(&self, r: Vec<(MouseButton, ElementState)>) -> bool {
        r@ == only_in(
            self.live_state().down_buttons(),
            self.snapshot_state().down_buttons(),
            ElementState::Pressed,
        ) + only_in(
            self.snapshot_state().down_buttons(),
            self.live_state().down_buttons(),
            ElementState::Released,
        ) && r@.no_duplicates()
    }

    fn difference(&self) -> (r: Vec<(MouseButton, ElementState)>) {
        proof {
            use_type_invariant(self);
            lemma_difference_distinct(self.live.buttons@, self.snapshot.buttons@);
        }
        let mut down = elements_only_in(
            &self.live.buttons,
            &self.snapshot.buttons,
            ElementState::Pressed,
        );
        let mut up = elements_only_in(
            &self.snapshot.buttons,
            &self.live.buttons,
            ElementState::Released,
        );
        down.append(&mut up);
        down
    }
}

impl InputDifference<MousePosition> for Mouse {
    type Difference = Option<(MousePosition, Vector2)>;

    /// The movement of the pointer since the snapshot, where it moved.
    open spec fn is_difference(&self, r: Option<(MousePosition, Vector2)>) -> bool {
        r == (if movement(
            self.snapshot_state().position_spec(),
            self.live_state().position_spec(),
        ) == (Vector2 { x: 0, y: 0 }) {
            None
        } else {
            Some(
                (
                    MousePosition,
                    movement(
                        self.snapshot_state().position_spec(),
                        self.live_state().position_spec(),
                    ),
                ),
            )
        })
    }

    fn difference(&self) -> (r: Option<(MousePosition, Vector2)>) {
        let live = self.live.position;
        let snapshot = self.snapshot.position;
        let difference = Vector2 {
            x: live.x.wrapping_sub(snapshot.x),
            y: live.y.wrapping_sub(snapshot.y),
        };
        let moved = !(difference.x == 0 && difference.y == 0);
        moved.into_some((MousePosition, difference))
    }
}

impl InputDifference<MouseProximity> for Mouse {
    type Difference = Option<(MouseProximity, bool)>;

    /// Whether the pointer entered or left the window since the snapshot,
    /// where it did.
    open spec fn is_difference(&self, r: Option<(MouseProximity, bool)>) -> bool {
        r == (if self.live_state().proximity_spec() == self.snapshot_state().proximity_spec() {
            None
        } else {
            Some((MouseProximity, self.live_state().proximity_spec()))
        })
    }

    fn difference(&self) -> (r: Option<(MouseProximity, bool)>) {
        match InputTransition::<MouseProximity>::transition(self, MouseProximity) {
            Some(state) => Some((MouseProximity, state)),
            None => None,
        }
    }
}

} // verus!
