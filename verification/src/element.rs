//! Evaluation results: a value together with a modifier bitmask.
//!
//! The modifier carries the attributes of a binding (`Const`, `Global`) and
//! the two abrupt-completion flags (`Controller`, `Error`) that unwind the
//! evaluator to the nearest handler.

use vstd::prelude::*;
use crate::tags::ApicaTypeBytecode;
use crate::value::{
    spec_add, spec_convert, spec_render_str, spec_unary, UnaryOp, Value, ValueModel, ValueOutcome,
};

verus! {

/// No modifier bit set.
pub const MOD_NONE: u8 = 0b0000_0000;
/// The binding cannot be re-assigned or mutated in place.
pub const MOD_CONST: u8 = 0b0000_0001;
/// The binding lives in the global scope.
pub const MOD_GLOBAL: u8 = 0b0000_0010;
/// The element is a control-flow signal; its `U8` payload encodes
/// `0 = return`, `1 = break`, `2 = continue`.
pub const MOD_CONTROLLER: u8 = 0b0000_0100;
/// The element is a propagating error; its value is an `Error` variant.
pub const MOD_ERROR: u8 = 0b0000_1000;

/// Controller payload of a blank `return`.
pub const CTRL_RETURN: u8 = 0;
/// Controller payload of `break`.
pub const CTRL_BREAK: u8 = 1;
/// Controller payload of `continue`.
pub const CTRL_CONTINUE: u8 = 2;

/// Mathematical model of an element.
pub struct ElemModel {
    pub modifier: u8,
    pub value: ValueModel,
}

/// True when every bit of `bit` is set in `modifier`.
pub open spec fn spec_has_mod(modifier: u8, bit: u8) -> bool {
    modifier & bit == bit
}

/// True when the element is an abrupt completion: an error or a
/// control-flow signal.
pub open spec fn spec_is_abrupt(e: ElemModel) -> bool {
    e.modifier & (MOD_CONTROLLER | MOD_ERROR) != 0
}

/// The plain `Null` element.
pub open spec fn spec_null_elem() -> ElemModel {
    ElemModel { modifier: MOD_NONE, value: ValueModel::Null }
}

/// An error element of the given kind and details.
pub open spec fn spec_error_elem(kind: Seq<char>, details: Option<Seq<char>>) -> ElemModel {
    ElemModel { modifier: MOD_ERROR, value: ValueModel::Error(kind, details) }
}

/// A control-flow signal element.
pub open spec fn spec_controller_elem(code: u8) -> ElemModel {
    ElemModel { modifier: MOD_CONTROLLER, value: ValueModel::U8(Some(code)) }
}

/// The element produced by a failed coercion.
pub open spec fn spec_conversion_error_elem() -> ElemModel {
    spec_error_elem(
        "ConversionError"@,
        Some("Cannot convert a value to the requested type"@),
    )
}

/// The element produced by an operator on an unsupported type pairing.
pub open spec fn spec_type_error_elem() -> ElemModel {
    spec_error_elem(
        "TypeError"@,
        Some("Cannot apply an operation to a value of this type"@),
    )
}

/// Element-level coercion: the value converts and the modifier is kept, or
/// the result is a `ConversionError` element.
pub open spec fn spec_elem_convert(e: ElemModel, target: ApicaTypeBytecode) -> ElemModel {
    match spec_convert(e.value, target) {
        Some(v) => ElemModel { modifier: e.modifier, value: v },
        None => spec_conversion_error_elem(),
    }
}

/// Element-level `+`: the value-level sum as a fresh element, or a
/// `TypeError` element.
pub open spec fn spec_elem_add(l: ElemModel, r: ElemModel) -> ElemModel {
    match spec_add(l.value, r.value) {
        ValueOutcome::Value(v) => ElemModel { modifier: MOD_NONE, value: v },
        ValueOutcome::TypeError => spec_type_error_elem(),
    }
}

/// Element left in place by an in-place unary operator: the updated value
/// under the old modifier on success, the old element on a type error.
pub open spec fn spec_elem_unary_self(op: UnaryOp, e: ElemModel) -> ElemModel {
    match spec_unary(op, e.value) {
        ValueOutcome::Value(v) => ElemModel { modifier: e.modifier, value: v },
        ValueOutcome::TypeError => e,
    }
}

/// Element returned by an in-place unary operator: a fresh copy of the
/// updated value on success, a `TypeError` element otherwise.
pub open spec fn spec_elem_unary_result(op: UnaryOp, e: ElemModel) -> ElemModel {
    match spec_unary(op, e.value) {
        ValueOutcome::Value(v) => ElemModel { modifier: MOD_NONE, value: v },
        ValueOutcome::TypeError => spec_type_error_elem(),
    }
}

/// An evaluation result: a guest value under a modifier bitmask.
pub struct Element {
    pub modifier: u8,
    pub value: Value,
}

impl View for Element {
    type V = ElemModel;

    open spec fn view(&self) -> ElemModel {
        ElemModel { modifier: self.modifier, value: self.value@ }
    }
}

impl Element {
    pub fn init(modifier: u8, value: Value) -> (r: Element)
        ensures
            r@ == (ElemModel { modifier, value: value@ }),
    {
        Element { modifier, value }
    }

    /// The plain `Null` element.
    pub fn create_null() -> (r: Element)
        ensures
            r@ == spec_null_elem(),
    {
        Element { modifier: MOD_NONE, value: Value::Null }
    }

    /// An error element around the given value, `Error` bit set.
    pub fn create_error(value: Value) -> (r: Element)
        ensures
            r@ == (ElemModel { modifier: MOD_ERROR, value: value@ }),
    {
        Element { modifier: MOD_ERROR, value }
    }

    /// A control-flow signal element with the given payload.
    pub fn create_controller(code: u8) -> (r: Element)
        ensures
            r@ == spec_controller_elem(code),
    {
        Element { modifier: MOD_CONTROLLER, value: Value::U8(Some(code)) }
    }

    pub fn get_modifier(&self) -> (m: u8)
        ensures
            m == self@.modifier,
    {
        self.modifier
    }

    pub fn get_value(&self) -> (v: &Value)
        ensures
            v@ == self@.value,
    {
        &self.value
    }

    pub fn has_modifier(&self, bit: u8) -> (r: bool)
        ensures
            r == spec_has_mod(self@.modifier, bit),
    {
        self.modifier & bit == bit
    }

    /// Deep copy; the model is unchanged.
    pub fn duplicate(&self) -> (r: Element)
        ensures
            r@ == self@,
    {
        Element { modifier: self.modifier, value: self.value.duplicate() }
    }

    /// True when the element carries an error or a control-flow signal.
    pub fn is_error_or_controller(&self) -> (r: bool)
        ensures
            r == spec_is_abrupt(self@),
    {
        self.modifier & (MOD_CONTROLLER | MOD_ERROR) != 0
    }

    /// Element-level coercion of the held value; the modifier bits survive
    /// a successful conversion, and a failed one yields a
    /// `ConversionError` element.
    pub fn auto_convert(&self, target: ApicaTypeBytecode) -> (r: Element)
        ensures
            r@ == spec_elem_convert(self@, target),
    {
        match self.value.auto_convert(target) {
            Some(v) => Element { modifier: self.modifier, value: v },
            None => Element::conversion_error(),
        }
    }

    /// Coercion used by declarations and conditions; it behaves as
    /// `auto_convert` and marks an incompatible target with an error
    /// element.
    pub fn check_convert(&self, target: ApicaTypeBytecode) -> (r: Element)
        ensures
            r@ == spec_elem_convert(self@, target),
    {
        self.auto_convert(target)
    }

    /// The `ConversionError` element.
    pub fn conversion_error() -> (r: Element)
        ensures
            r@ == spec_conversion_error_elem(),
    {
        Element {
            modifier: MOD_ERROR,
            value: Value::Error(
                "ConversionError".to_owned(),
                Some("Cannot convert a value to the requested type".to_owned()),
            ),
        }
    }

    /// The `TypeError` element.
    pub fn type_error() -> (r: Element)
        ensures
            r@ == spec_type_error_elem(),
    {
        Element {
            modifier: MOD_ERROR,
            value: Value::Error(
                "TypeError".to_owned(),
                Some("Cannot apply an operation to a value of this type".to_owned()),
            ),
        }
    }

    /// The binary `+` of the element layer.
    pub fn add(&self, other: &Element) -> (r: Element)
        ensures
            r@ == spec_elem_add(self@, other@),
    {
        let lk = self.value.get_kind();
        let rk = other.value.get_kind();
        if lk == ApicaTypeBytecode::String || rk == ApicaTypeBytecode::String {
            let lc = self.value.auto_convert(ApicaTypeBytecode::String);
            let rc = other.value.auto_convert(ApicaTypeBytecode::String);
            match (lc, rc) {
                (Some(Value::Str(a)), Some(Value::Str(b))) => {
                    let left = render_string_payload(&a);
                    let right = render_string_payload(&b);
                    let joined = left.concat(right.as_str());
                    Element { modifier: MOD_NONE, value: Value::Str(Some(joined)) }
                },
                _ => Element::type_error(),
            }
        } else {
            match (&self.value, &other.value) {
                (Value::U8(a), Value::U8(b)) => Element {
                    modifier: MOD_NONE,
                    value: Value::U8(
                        match (a, b) {
                            (Some(x), Some(y)) => Some(
                                ((*x as u16 + *y as u16) % 256) as u8,
                            ),
                            _ => None,
                        },
                    ),
                },
                (Value::U8(a), Value::U32(b)) => Element {
                    modifier: MOD_NONE,
                    value: Value::U32(
                        match (a, b) {
                            (Some(x), Some(y)) => Some(
                                ((*x as u64 + *y as u64) % 0x1_0000_0000) as u32,
                            ),
                            _ => None,
                        },
                    ),
                },
                (Value::U32(a), Value::U8(b)) => Element {
                    modifier: MOD_NONE,
                    value: Value::U32(
                        match (a, b) {
                            (Some(x), Some(y)) => Some(
                                ((*x as u64 + *y as u64) % 0x1_0000_0000) as u32,
                            ),
                            _ => None,
                        },
                    ),
                },
                (Value::U32(a), Value::U32(b)) => Element {
                    modifier: MOD_NONE,
                    value: Value::U32(
                        match (a, b) {
                            (Some(x), Some(y)) => Some(
                                ((*x as u64 + *y as u64) % 0x1_0000_0000) as u32,
                            ),
                            _ => None,
                        },
                    ),
                },
                (Value::Bool(a), Value::Bool(b)) => Element {
                    modifier: MOD_NONE,
                    value: Value::U8(
                        match (a, b) {
                            (Some(x), Some(y)) => Some(
                                (if *x { 1u8 } else { 0u8 }) + (if *y { 1u8 } else { 0u8 }),
                            ),
                            _ => None,
                        },
                    ),
                },
                _ => Element::type_error(),
            }
        }
    }

    /// In-place increment; the updated value is left in the element and
    /// returned as a fresh copy, or the element is left unchanged and a
    /// `TypeError` element is returned.
    pub fn increment(&mut self) -> (r: Element)
        ensures
            final(self)@ == spec_elem_unary_self(UnaryOp::Incr, old(self)@),
            r@ == spec_elem_unary_result(UnaryOp::Incr, old(self)@),
    {
        self.apply_unary_incr_decr(true)
    }

    /// In-place decrement; behaves as `increment` with the opposite step.
    pub fn decrement(&mut self) -> (r: Element)
        ensures
            final(self)@ == spec_elem_unary_self(UnaryOp::Decr, old(self)@),
            r@ == spec_elem_unary_result(UnaryOp::Decr, old(self)@),
    {
        self.apply_unary_incr_decr(false)
    }

    fn apply_unary_incr_decr(&mut self, up: bool) -> (r: Element)
        ensures
            up ==> final(self)@ == spec_elem_unary_self(UnaryOp::Incr, old(self)@) && r@
                == spec_elem_unary_result(UnaryOp::Incr, old(self)@),
            !up ==> final(self)@ == spec_elem_unary_self(UnaryOp::Decr, old(self)@) && r@
                == spec_elem_unary_result(UnaryOp::Decr, old(self)@),
    {
        let new_value: Option<Value> = match &self.value {
            Value::U8(n) => Some(
                Value::U8(
                    match n {
                        Some(x) => Some(
                            if up {
                                ((*x as u16 + 1) % 256) as u8
                            } else {
                                ((*x as u16 + 255) % 256) as u8
                            },
                        ),
                        None => None,
                    },
                ),
            ),
            Value::U32(n) => Some(
                Value::U32(
                    match n {
                        Some(x) => Some(
                            if up {
                                ((*x as u64 + 1) % 0x1_0000_0000) as u32
                            } else {
                                ((*x as u64 + 0xffff_ffff) % 0x1_0000_0000) as u32
                            },
                        ),
                        None => None,
                    },
                ),
            ),
            Value::Bool(b) => Some(
                Value::Bool(
                    match b {
                        Some(x) => Some(!*x),
                        None => None,
                    },
                ),
            ),
            _ => None,
        };
        match new_value {
            Some(v) => {
                let result = Element { modifier: MOD_NONE, value: v.duplicate() };
                self.value = v;
                result
            },
            None => Element::type_error(),
        }
    }

    /// In-place logical negation; a numeric value is first coerced to
    /// `Bool`.
    pub fn not(&mut self) -> (r: Element)
        ensures
            final(self)@ == spec_elem_unary_self(UnaryOp::NotOp, old(self)@),
            r@ == spec_elem_unary_result(UnaryOp::NotOp, old(self)@),
    {
        let new_value: Option<Value> = match &self.value {
            Value::Bool(b) => Some(
                Value::Bool(
                    match b {
                        Some(x) => Some(!*x),
                        None => None,
                    },
                ),
            ),
            Value::U8(n) => Some(
                Value::Bool(
                    match n {
                        Some(x) => Some(*x == 0),
                        None => None,
                    },
                ),
            ),
            Value::U32(n) => Some(
                Value::Bool(
                    match n {
                        Some(x) => Some(*x == 0),
                        None => None,
                    },
                ),
            ),
            _ => None,
        };
        match new_value {
            Some(v) => {
                let result = Element { modifier: MOD_NONE, value: v.duplicate() };
                self.value = v;
                result
            },
            None => Element::type_error(),
        }
    }
}

/// Rendering of a string payload, executable form: an unset payload shows
/// as `null`.
pub fn render_string_payload(p: &Option<String>) -> (r: String)
    ensures
        r@ == spec_render_str(
            match p {
                Some(s) => Some(s@),
                None => None,
            },
        ),
{
    match p {
        Some(s) => s.clone(),
        None => "null".to_owned(),
    }
}

} // verus!
