use automancy_core::input::{KeyAction, KeyActions, KeyStates, PressTypes};

const Z: u32 = 35;
const ESCAPE: u32 = 36;
const F3: u32 = 39;
const H: u32 = 17;

fn states() -> KeyStates {
    KeyStates::new(&vec![
        (Z, KeyAction::undo()),
        (ESCAPE, KeyAction::pause()),
        (F3, KeyAction::debug()),
        (H, KeyAction { action: KeyActions::UNDO, press_type: PressTypes::HOLD }),
    ])
}

#[test]
fn all_actions_start_off() {
    let ks = states();
    assert!(!ks.key_pressed(&KeyAction::undo()));
    assert!(!ks.key_pressed(&KeyAction::pause()));
    assert!(!ks.key_pressed(&KeyAction::debug()));
}

#[test]
fn oneshot_fires_once_until_released() {
    let mut ks = states();
    ks.key_event(ESCAPE, true);
    assert!(ks.key_pressed(&KeyAction::pause()));
    ks.key_event(ESCAPE, false);
    assert!(!ks.key_pressed(&KeyAction::pause()));
    // the released key is still the last key event, so it does not fire yet
    ks.key_event(ESCAPE, true);
    assert!(!ks.key_pressed(&KeyAction::pause()));
    ks.key_event(F3, true);
    ks.key_event(ESCAPE, true);
    assert!(ks.key_pressed(&KeyAction::pause()));
}

#[test]
fn oneshot_repeat_keeps_state_until_release() {
    let mut ks = states();
    ks.key_event(Z, true);
    ks.key_event(Z, true);
    assert!(ks.key_pressed(&KeyAction::undo()));
    ks.key_event(Z, false);
    assert!(!ks.key_pressed(&KeyAction::undo()));
}

#[test]
fn toggle_flips_on_press_only() {
    let mut ks = states();
    ks.key_event(F3, true);
    assert!(ks.key_pressed(&KeyAction::debug()));
    ks.key_event(F3, false);
    assert!(ks.key_pressed(&KeyAction::debug()));
    ks.key_event(F3, true);
    assert!(!ks.key_pressed(&KeyAction::debug()));
}

#[test]
fn hold_follows_the_key() {
    let mut ks = states();
    let hold = KeyAction { action: KeyActions::UNDO, press_type: PressTypes::HOLD };
    ks.key_event(H, true);
    assert!(ks.key_pressed(&hold));
    assert!(!ks.key_pressed(&KeyAction::undo()));
    ks.key_event(H, false);
    assert!(!ks.key_pressed(&hold));
}

#[test]
fn unbound_keys_change_nothing() {
    let mut ks = states();
    ks.key_event(1, true);
    assert!(!ks.key_pressed(&KeyAction::undo()));
    assert!(!ks.key_pressed(&KeyAction::pause()));
    assert!(!ks.key_pressed(&KeyAction::debug()));
}

#[test]
fn bound_actions_are_known() {
    let ks = states();
    assert!(ks.is_bound(&KeyAction::undo()));
    assert!(ks.is_bound(&KeyAction { action: KeyActions::UNDO, press_type: PressTypes::HOLD }));
    assert!(!ks.is_bound(&KeyAction { action: KeyActions::PAUSE, press_type: PressTypes::TOGGLE }));
}

#[test]
fn later_binding_of_a_key_replaces_earlier() {
    let mut ks = KeyStates::new(&vec![(Z, KeyAction::undo()), (Z, KeyAction::debug())]);
    ks.key_event(Z, true);
    assert!(ks.key_pressed(&KeyAction::debug()));
    assert!(!ks.key_pressed(&KeyAction::undo()));
}
