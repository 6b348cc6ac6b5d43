use vstd::prelude::*;

use std::collections::HashMap;

verus! {

broadcast use vstd::std_specs::hash::group_hash_axioms;

/// The actions that keys can be bound to.
#[allow(non_camel_case_types, clippy::upper_case_acronyms)]
#[derive(Debug, Clone, Copy, PartialEq, Eq, Structural, Hash, PartialOrd, Ord)]
pub enum KeyActions {
    PAUSE,
    UNDO,
    DEBUG,
}

/// How a key's state follows its presses.
#[allow(non_camel_case_types, clippy::upper_case_acronyms)]
#[derive(Debug, Clone, Copy, PartialEq, Eq, Structural, Hash, PartialOrd, Ord)]
pub enum PressTypes {
    /// On when pressed, and not again until the key is released.
    ONESHOT,
    /// On while the key is down.
    HOLD,
    /// Each press flips it.
    TOGGLE,
}

/// An action together with how its key behaves.
#[derive(Debug, Clone, Copy, PartialEq, Eq, Structural, Hash, PartialOrd, Ord)]
pub struct KeyAction {
    pub action: KeyActions,
    pub press_type: PressTypes,
}

pub open spec fn action_ordinal(a: KeyActions) -> int {
    match a {
        KeyActions::PAUSE => 0,
        KeyActions::UNDO => 1,
        KeyActions::DEBUG => 2,
    }
}

pub open spec fn press_ordinal(p: PressTypes) -> int {
    match p {
        PressTypes::ONESHOT => 0,
        PressTypes::HOLD => 1,
        PressTypes::TOGGLE => 2,
    }
}

/// The key under which the state of an action is kept; distinct actions
/// have distinct codes.
pub open spec fn action_code(a: KeyAction) -> u32 {
    (action_ordinal(a.action) * 3 + press_ordinal(a.press_type)) as u32
}

/// Distinct actions have distinct codes.
pub proof fn lemma_action_code_injective(a: KeyAction, b: KeyAction)
    ensures
        action_code(a) == action_code(b) ==> a == b,
{
}

fn code_of(a: KeyAction) -> (c: u32)
    ensures
        c == action_code(a),
{
    let x: u32 = match a.action {
        KeyActions::PAUSE => 0,
        KeyActions::UNDO => 1,
        KeyActions::DEBUG => 2,
    };
    let y: u32 = match a.press_type {
        PressTypes::ONESHOT => 0,
        PressTypes::HOLD => 1,
        PressTypes::TOGGLE => 2,
    };
    x * 3 + y
}

impl KeyAction {
    /// Pausing, on a one-shot key.
    pub fn pause() -> (a: KeyAction)
        ensures
            a == (KeyAction { action: KeyActions::PAUSE, press_type: PressTypes::ONESHOT }),
    {
        KeyAction { action: KeyActions::PAUSE, press_type: PressTypes::ONESHOT }
    }

    /// Undoing, on a one-shot key.
    pub fn undo() -> (a: KeyAction)
        ensures
            a == (KeyAction { action: KeyActions::UNDO, press_type: PressTypes::ONESHOT }),
    {
        KeyAction { action: KeyActions::UNDO, press_type: PressTypes::ONESHOT }
    }

    /// The debug view, on a toggling key.
    pub fn debug() -> (a: KeyAction)
        ensures
            a == (KeyAction { action: KeyActions::DEBUG, press_type: PressTypes::TOGGLE }),
    {
        KeyAction { action: KeyActions::DEBUG, press_type: PressTypes::TOGGLE }
    }
}

/// The states and the last key after a key event: `key` went down when
/// `pressed`, else up. Keys bound to nothing change nothing.
pub open spec fn key_step(
    keymap: Map<u32, KeyAction>,
    states: Map<u32, bool>,
    previous: Option<u32>,
    key: u32,
    pressed: bool,
) -> (Map<u32, bool>, Option<u32>) {
    if !keymap.contains_key(key) {
        (states, previous)
    } else {
        let c = action_code(keymap[key]);
        match keymap[key].press_type {
            PressTypes::ONESHOT => if pressed {
                if previous != Some(key) {
                    (states.insert(c, true), previous)
                } else {
                    (states, previous)
                }
            } else {
                (states.insert(c, false), None)
            },
            PressTypes::HOLD => (states.insert(c, pressed), previous),
            PressTypes::TOGGLE => if pressed {
                (states.insert(c, !states[c]), previous)
            } else {
                (states, previous)
            },
        }
    }
}

/// The action bound to each key by `bindings`, a later binding of a key
/// replacing an earlier one.
pub open spec fn bindings_keymap(bindings: Seq<(u32, KeyAction)>) -> Map<u32, KeyAction>
    decreases bindings.len(),
{
    if bindings.len() == 0 {
        Map::empty()
    } else {
        bindings_keymap(bindings.drop_last()).insert(bindings.last().0, bindings.last().1)
    }
}

/// An off state for the code of each action that `bindings` names.
pub open spec fn bindings_states(bindings: Seq<(u32, KeyAction)>) -> Map<u32, bool>
    decreases bindings.len(),
{
    if bindings.len() == 0 {
        Map::empty()
    } else {
        bindings_states(bindings.drop_last()).insert(action_code(bindings.last().1), false)
    }
}

/// Key bindings and the on/off state of each bound action.
pub struct KeyStates {
    keymap: HashMap<u32, KeyAction>,
    states: HashMap<u32, bool>,
    previous: Option<u32>,
}

impl KeyStates {
    /// The action bound to each key code.
    pub closed spec fn keymap_view(&self) -> Map<u32, KeyAction> {
        self.keymap@
    }

    /// The state of each action, by its code.
    pub closed spec fn states_view(&self) -> Map<u32, bool> {
        self.states@
    }

    /// The key of the last key event, if it is still held.
    pub closed spec fn previous_view(&self) -> Option<u32> {
        self.previous
    }

    /// Every bound action has a state.
    pub open spec fn wf(&self) -> bool {
        forall|k: u32| #[trigger]
            self.keymap_view().contains_key(k) ==> self.states_view().contains_key(
                action_code(self.keymap_view()[k]),
            )
    }

    /// Binds each key of `bindings` to its action, a later binding of a key
    /// replacing an earlier one; every bound action starts off.
    pub fn new(bindings: &Vec<(u32, KeyAction)>) -> (ks: KeyStates)
        ensures
            ks.wf(),
            ks.previous_view() == None::<u32>,
            ks.keymap_view() == bindings_keymap(bindings@),
            ks.states_view() == bindings_states(bindings@),
    {
        let mut keymap: HashMap<u32, KeyAction> = HashMap::new();
        let mut states: HashMap<u32, bool> = HashMap::new();
        let mut i: usize = 0;
        proof {
            assert(bindings@.take(0) =~= Seq::<(u32, KeyAction)>::empty());
            assert(keymap@ =~= Map::<u32, KeyAction>::empty());
            assert(states@ =~= Map::<u32, bool>::empty());
        }
        while i < bindings.len()
            invariant
                0 <= i <= bindings.len(),
                keymap@ == bindings_keymap(bindings@.take(i as int)),
                states@ == bindings_states(bindings@.take(i as int)),
                forall|k: u32| #[trigger]
                    keymap@.contains_key(k) ==> states@.contains_key(action_code(keymap@[k])),
            decreases bindings.len() - i,
        {
            let (key, action) = bindings[i];
            let c = code_of(action);
            proof {
                assert(bindings@.take(i + 1).drop_last() =~= bindings@.take(i as int));
                assert(bindings@.take(i + 1).last() == (key, action));
            }
            keymap.insert(key, action);
            states.insert(c, false);
            i += 1;
        }
        proof {
            assert(bindings@.take(i as int) =~= bindings@);
        }
        KeyStates { keymap, states, previous: None }
    }

    /// Whether the action has a state, that is, whether some key was bound to it.
    pub fn is_bound(&self, action: &KeyAction) -> (b: bool)
        ensures
            b == self.states_view().contains_key(action_code(*action)),
    {
        let c = code_of(*action);
        self.states.contains_key(&c)
    }

    /// Whether the action is on.
    pub fn key_pressed(&self, action: &KeyAction) -> (on: bool)
        requires
            self.states_view().contains_key(action_code(*action)),
        ensures
            on == self.states_view()[action_code(*action)],
    {
        let c = code_of(*action);
        match self.states.get(&c) {
            Some(on) => *on,
            None => false,
        }
    }

    /// Applies a key event: `key` went down when `pressed`, else up.
    pub fn handle_key(&mut self, key: u32, pressed: bool)
        requires
            old(self).wf(),
        ensures
            final(self).wf(),
            final(self).keymap_view() == old(self).keymap_view(),
            (final(self).states_view(), final(self).previous_view()) == key_step(
                old(self).keymap_view(),
                old(self).states_view(),
                old(self).previous_view(),
                key,
                pressed,
            ),
    {
        let action = match self.keymap.get(&key) {
            Some(a) => *a,
            None => {
                return;
            },
        };
        proof {
            assert(self.keymap_view().contains_key(key));
        }
        let c = code_of(action);
        match action.press_type {
            PressTypes::ONESHOT => {
                if pressed {
                    if self.previous != Some(key) {
                        self.states.insert(c, true);
                    }
                } else {
                    self.previous = None;
                    self.states.insert(c, false);
                }
            },
            PressTypes::HOLD => {
                self.states.insert(c, pressed);
            },
            PressTypes::TOGGLE => {
                if pressed {
                    let cur = match self.states.get(&c) {
                        Some(v) => *v,
                        None => false,
                    };
                    self.states.insert(c, !cur);
                }
            },
        }
    }

    /// Applies a key event and remembers `key` as the last key.
    pub fn key_event(&mut self, key: u32, pressed: bool)
        requires
            old(self).wf(),
        ensures
            final(self).wf(),
            final(self).keymap_view() == old(self).keymap_view(),
            final(self).states_view() == key_step(
                old(self).keymap_view(),
                old(self).states_view(),
                old(self).previous_view(),
                key,
                pressed,
            ).0,
            final(self).previous_view() == Some(key),
    {
        self.handle_key(key, pressed);
        self.previous = Some(key);
    }
}

} // verus!
