//! The keyboard input table of the runtime.
//!
//! The table maps a physical scancode to its state. The host around the
//! library registers the scancodes it cares about, translates key events
//! into `(scancode, pressed)` pairs between ticks, and the guest queries
//! exact states through the three key builtins.

use vstd::prelude::*;
use crate::element::{ElemModel, Element};
use crate::tags::ApicaTypeBytecode;
use crate::value::{spec_convert, Value, ValueModel};

verus! {

/// State of one tracked key.
#[derive(Clone, Copy, PartialEq, Eq, Structural, Debug)]
pub enum KeyState {
    Released,
    JustPressed,
    Pressed,
}

/// Mathematical model of the input table: tracked scancodes in
/// registration order.
pub type InputsModel = Seq<(u32, KeyState)>;

/// True when the scancode is tracked.
pub open spec fn keys_contains(m: InputsModel, code: u32) -> bool {
    exists|i: int| 0 <= i < m.len() && m[i].0 == code
}

/// Index of the scancode's entry.
pub open spec fn keys_idx(m: InputsModel, code: u32) -> int {
    choose|i: int| 0 <= i < m.len() && m[i].0 == code
}

/// State of a tracked scancode.
pub open spec fn keys_at(m: InputsModel, code: u32) -> KeyState {
    m[keys_idx(m, code)].1
}

/// Scancodes are unique in the table.
pub open spec fn wf_inputs(m: InputsModel) -> bool {
    forall|i: int, j: int| 0 <= i < j < m.len() ==> (#[trigger] m[i]).0 != (#[trigger] m[j]).0
}

/// The ingest rule of a key event: a press moves `JustPressed` to
/// `Pressed` and anything else to `JustPressed`; a release moves any state
/// to `Released`. An untracked scancode is ignored.
pub open spec fn spec_handle_key(m: InputsModel, code: u32, pressed: bool) -> InputsModel {
    if keys_contains(m, code) {
        let next = if pressed {
            if keys_at(m, code) == KeyState::JustPressed {
                KeyState::Pressed
            } else {
                KeyState::JustPressed
            }
        } else {
            KeyState::Released
        };
        m.update(keys_idx(m, code), (code, next))
    } else {
        m
    }
}

/// True when the scancode is tracked and in exactly the given state.
pub open spec fn spec_key_is(m: InputsModel, code: u32, state: KeyState) -> bool {
    keys_contains(m, code) && keys_at(m, code) == state
}

/// Result of a guest key query: the first parameter must coerce to a set
/// `U32` payload, else the query fails.
pub open spec fn spec_key_query(m: InputsModel, params: Seq<ElemModel>, state: KeyState)
    -> Option<bool> {
    if params.len() == 0 {
        None
    } else {
        match spec_convert(params[0].value, ApicaTypeBytecode::U32) {
            Some(ValueModel::U32(Some(code))) => Some(spec_key_is(m, code, state)),
            _ => None,
        }
    }
}

/// The input table.
pub struct InputsSystem {
    keys: Vec<(u32, KeyState)>,
}

impl View for InputsSystem {
    type V = InputsModel;

    closed spec fn view(&self) -> InputsModel {
        self.keys@
    }
}

/// Index of the entry of `code`, searching front to back.
fn keys_find_idx(keys: &Vec<(u32, KeyState)>, code: u32) -> (r: Option<usize>)
    ensures
        match r {
            Some(i) => 0 <= i < keys@.len() && keys@[i as int].0 == code,
            None => !keys_contains(keys@, code),
        },
{
    let mut i: usize = 0;
    while i < keys.len()
        invariant
            0 <= i <= keys@.len(),
            forall|j: int| 0 <= j < i ==> (#[trigger] keys@[j]).0 != code,
        decreases keys@.len() - i,
    {
        if keys[i].0 == code {
            return Some(i);
        }
        i = i + 1;
    }
    None
}

/// With unique scancodes, the entry of a tracked code is the entry at any
/// index where it stands.
proof fn lemma_keys_at(m: InputsModel, code: u32, i: int)
    requires
        wf_inputs(m),
        0 <= i < m.len(),
        m[i].0 == code,
    ensures
        keys_contains(m, code),
        keys_idx(m, code) == i,
        keys_at(m, code) == m[i].1,
{
    assert(keys_contains(m, code));
    let j = keys_idx(m, code);
    if i != j {
        assert(m[i].0 != m[j].0);
    }
}

impl InputsSystem {
    /// A fresh table with no tracked keys.
    pub fn init() -> (r: InputsSystem)
        ensures
            r@ =~= Seq::<(u32, KeyState)>::empty(),
            wf_inputs(r@),
    {
        InputsSystem { keys: Vec::new() }
    }

    /// Starts tracking a scancode in the `Released` state; a no-op for a
    /// scancode already tracked.
    pub fn track_key(&mut self, code: u32)
        requires
            wf_inputs(old(self)@),
        ensures
            wf_inputs(final(self)@),
            keys_contains(old(self)@, code) ==> final(self)@ == old(self)@,
            !keys_contains(old(self)@, code) ==> final(self)@ =~= old(self)@.push(
                (code, KeyState::Released),
            ),
    {
        match keys_find_idx(&self.keys, code) {
            Some(_) => {},
            None => {
                self.keys.push((code, KeyState::Released));
                proof {
                    let m = final(self)@;
                    assert forall|i: int, j: int| 0 <= i < j < m.len() implies (
                    #[trigger] m[i]).0 != (#[trigger] m[j]).0 by {
                        if j == m.len() - 1 {
                            assert(m[i] == old(self)@[i]);
                        } else {
                            assert(m[i] == old(self)@[i]);
                            assert(m[j] == old(self)@[j]);
                        }
                    }
                }
            },
        }
    }

    /// Ingests one key event following the ingest rule.
    pub fn handle_key_event(&mut self, code: u32, pressed: bool)
        requires
            wf_inputs(old(self)@),
        ensures
            wf_inputs(final(self)@),
            final(self)@ == spec_handle_key(old(self)@, code, pressed),
    {
        match keys_find_idx(&self.keys, code) {
            Some(i) => {
                proof {
                    lemma_keys_at(self@, code, i as int);
                }
                let next = if pressed {
                    if self.keys[i].1 == KeyState::JustPressed {
                        KeyState::Pressed
                    } else {
                        KeyState::JustPressed
                    }
                } else {
                    KeyState::Released
                };
                let code_kept = self.keys[i].0;
                self.keys.set(i, (code_kept, next));
                proof {
                    let m = final(self)@;
                    assert(m =~= spec_handle_key(old(self)@, code, pressed));
                    assert forall|a: int, b: int| 0 <= a < b < m.len() implies (
                    #[trigger] m[a]).0 != (#[trigger] m[b]).0 by {
                        if a != i {
                            assert(m[a] == old(self)@[a]);
                        }
                        if b != i {
                            assert(m[b] == old(self)@[b]);
                        }
                    }
                }
            },
            None => {},
        }
    }

    /// True when the scancode is tracked and currently `Released`.
    pub fn system_is_key_released(&self, code: u32) -> (r: bool)
        requires
            wf_inputs(self@),
        ensures
            r == spec_key_is(self@, code, KeyState::Released),
    {
        self.query_state(code, KeyState::Released)
    }

    /// True when the scancode is tracked and currently `JustPressed`.
    pub fn system_is_key_just_pressed(&self, code: u32) -> (r: bool)
        requires
            wf_inputs(self@),
        ensures
            r == spec_key_is(self@, code, KeyState::JustPressed),
    {
        self.query_state(code, KeyState::JustPressed)
    }

    /// True when the scancode is tracked and currently `Pressed`.
    pub fn system_is_key_pressed(&self, code: u32) -> (r: bool)
        requires
            wf_inputs(self@),
        ensures
            r == spec_key_is(self@, code, KeyState::Pressed),
    {
        self.query_state(code, KeyState::Pressed)
    }

    fn query_state(&self, code: u32, state: KeyState) -> (r: bool)
        requires
            wf_inputs(self@),
        ensures
            r == spec_key_is(self@, code, state),
    {
        match keys_find_idx(&self.keys, code) {
            Some(i) => {
                proof {
                    lemma_keys_at(self@, code, i as int);
                }
                self.keys[i].1 == state
            },
            None => false,
        }
    }

    /// The guest `IsKeyReleased` builtin.
    pub fn is_key_released(&self, parameters: &Vec<Element>) -> (r: Option<bool>)
        requires
            wf_inputs(self@),
        ensures
            r == spec_key_query(
                self@,
                parameters@.map(|i: int, e: Element| e@),
                KeyState::Released,
            ),
    {
        self.key_query(parameters, KeyState::Released)
    }

    /// The guest `IsKeyJustPressed` builtin.
    pub fn is_key_just_pressed(&self, parameters: &Vec<Element>) -> (r: Option<bool>)
        requires
            wf_inputs(self@),
        ensures
            r == spec_key_query(
                self@,
                parameters@.map(|i: int, e: Element| e@),
                KeyState::JustPressed,
            ),
    {
        self.key_query(parameters, KeyState::JustPressed)
    }

    /// The guest `IsKeyPressed` builtin.
    pub fn is_key_pressed(&self, parameters: &Vec<Element>) -> (r: Option<bool>)
        requires
            wf_inputs(self@),
        ensures
            r == spec_key_query(
                self@,
                parameters@.map(|i: int, e: Element| e@),
                KeyState::Pressed,
            ),
    {
        self.key_query(parameters, KeyState::Pressed)
    }

    fn key_query(&self, parameters: &Vec<Element>, state: KeyState) -> (r: Option<bool>)
        requires
            wf_inputs(self@),
        ensures
            r == spec_key_query(self@, parameters@.map(|i: int, e: Element| e@), state),
    {
        if parameters.len() == 0 {
            return None;
        }
        match parameters[0].get_value().auto_convert(ApicaTypeBytecode::U32) {
            Some(Value::U32(Some(code))) => Some(self.query_state(code, state)),
            _ => None,
        }
    }
}

} // verus!
