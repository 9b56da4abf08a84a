use bismuth::event::{ElementState, Event, MouseButton, React};
use bismuth::input::keyboard::Keyboard;
use bismuth::input::mouse::{Mouse, MousePosition, MouseProximity, Vector2};
use bismuth::input::state::{CompositeState, Input, InputDifference, InputState, InputTransition, Snapshot};

#[test]
fn position_difference_some() {
    let mut mouse = Mouse::new();
    mouse.react(&Event::MouseMoved(1, 0));
    Snapshot::snapshot(&mut mouse);
    mouse.react(&Event::MouseMoved(1, 1)); // Move 1 LU along the Y axis.

    assert_eq!(
        Vector2 { x: 0, y: 1 },
        <Mouse as InputDifference<MousePosition>>::difference(&mouse)
            .unwrap()
            .1
    );
}

#[test]
fn position_difference_none() {
    let mut mouse = Mouse::new();
    mouse.react(&Event::MouseMoved(1, 0));
    Snapshot::snapshot(&mut mouse);

    assert!(<Mouse as InputDifference<MousePosition>>::difference(&mouse).is_none());
}

#[test]
fn proximity_difference() {
    let mut mouse = Mouse::new();
    Snapshot::snapshot(&mut mouse);
    mouse.react(&Event::MouseEntered);
    assert_eq!(
        <Mouse as InputDifference<MouseProximity>>::difference(&mouse),
        Some((MouseProximity, true))
    );
    Snapshot::snapshot(&mut mouse);
    assert_eq!(<Mouse as InputDifference<MouseProximity>>::difference(&mouse), None);
}

#[test]
fn button_transitions() {
    let mut mouse = Mouse::new();
    mouse.react(&Event::MouseInput(ElementState::Pressed, MouseButton::Left));
    assert!(Input::live(&mouse).state(MouseButton::Left) == ElementState::Pressed);
    assert!(InputTransition::<MouseButton>::transition(&mouse, MouseButton::Left) == Some(ElementState::Pressed));
    Snapshot::snapshot(&mut mouse);
    assert!(InputTransition::<MouseButton>::transition(&mouse, MouseButton::Left).is_none());
    mouse.react(&Event::MouseInput(ElementState::Released, MouseButton::Left));
    assert!(InputTransition::<MouseButton>::transition(&mouse, MouseButton::Left) == Some(ElementState::Released));
}

#[test]
fn button_difference_lists_pressed_then_released() {
    let mut mouse = Mouse::new();
    mouse.react(&Event::MouseInput(ElementState::Pressed, MouseButton::Right));
    Snapshot::snapshot(&mut mouse);
    mouse.react(&Event::MouseInput(ElementState::Released, MouseButton::Right));
    mouse.react(&Event::MouseInput(ElementState::Pressed, MouseButton::Other(4)));
    let difference = <Mouse as InputDifference<MouseButton>>::difference(&mouse);
    assert_eq!(
        difference,
        vec![(MouseButton::Other(4), ElementState::Pressed), (MouseButton::Right, ElementState::Released)]
    );
}

#[test]
fn keyboard_keys_go_down_and_up_once() {
    let mut keyboard = Keyboard::new();
    keyboard.react(&Event::KeyboardInput(ElementState::Pressed, 0, Some(17)));
    keyboard.react(&Event::KeyboardInput(ElementState::Pressed, 0, Some(17)));
    keyboard.react(&Event::KeyboardInput(ElementState::Pressed, 0, None));
    assert_eq!(Input::live(&keyboard).composite(), &vec![17u32]);
    assert!(Input::live(&keyboard).state(17u32) == ElementState::Pressed);
    keyboard.react(&Event::KeyboardInput(ElementState::Released, 0, Some(17)));
    assert!(Input::live(&keyboard).state(17u32) == ElementState::Released);
    assert!(Input::live(&keyboard).composite().is_empty());
}

#[test]
fn keyboard_difference() {
    let mut keyboard = Keyboard::new();
    keyboard.react(&Event::KeyboardInput(ElementState::Pressed, 0, Some(3)));
    Snapshot::snapshot(&mut keyboard);
    keyboard.react(&Event::KeyboardInput(ElementState::Pressed, 0, Some(5)));
    let difference = <Keyboard as InputDifference<u32>>::difference(&keyboard);
    assert_eq!(difference, vec![(5u32, ElementState::Pressed)]);
    assert!(InputTransition::<u32>::transition(&keyboard, 3).is_none());
}

#[test]
fn keyboard_difference_names_each_key_once() {
    let mut keyboard = Keyboard::new();
    keyboard.react(&Event::KeyboardInput(ElementState::Pressed, 0, Some(1)));
    Snapshot::snapshot(&mut keyboard);
    keyboard.react(&Event::KeyboardInput(ElementState::Pressed, 0, Some(4)));
    keyboard.react(&Event::KeyboardInput(ElementState::Pressed, 0, Some(4)));
    keyboard.react(&Event::KeyboardInput(ElementState::Released, 0, Some(1)));
    keyboard.react(&Event::KeyboardInput(ElementState::Released, 0, Some(1)));
    let difference = <Keyboard as InputDifference<u32>>::difference(&keyboard);
    assert_eq!(difference, vec![(4u32, ElementState::Pressed), (1u32, ElementState::Released)]);
}

#[test]
fn snapshot_clears_every_difference() {
    let mut keyboard = Keyboard::new();
    keyboard.react(&Event::KeyboardInput(ElementState::Pressed, 0, Some(1)));
    keyboard.react(&Event::KeyboardInput(ElementState::Pressed, 0, Some(2)));
    Snapshot::snapshot(&mut keyboard);
    assert!(<Keyboard as InputDifference<u32>>::difference(&keyboard).is_empty());
    let mut mouse = Mouse::new();
    mouse.react(&Event::MouseMoved(-5, 7));
    mouse.react(&Event::MouseInput(ElementState::Pressed, MouseButton::Middle));
    Snapshot::snapshot(&mut mouse);
    assert!(<Mouse as InputDifference<MouseButton>>::difference(&mouse).is_empty());
    assert!(<Mouse as InputDifference<MousePosition>>::difference(&mouse).is_none());
}
