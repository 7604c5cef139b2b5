//! The tagged value universe of the guest language.
//!
//! Every scalar variant carries an optional payload: an unset payload is the
//! valid "null of that type" state a binding has before assignment. The
//! conversion lattice, the binary `+` and the unary operators are specified
//! here at the value level; `element` wraps them with error propagation.

use vstd::prelude::*;
use crate::tags::ApicaTypeBytecode;
use crate::strutil::{dec_str, parse_dec};

verus! {

/// Mathematical model of a guest value.
pub enum ValueModel {
    Null,
    Bool(Option<bool>),
    U8(Option<u8>),
    U32(Option<u32>),
    Str(Option<Seq<char>>),
    Pointer(Seq<char>, bool),
    Error(Seq<char>, Option<Seq<char>>),
}

/// A guest value: a tagged union of the seven kinds.
pub enum Value {
    Null,
    Bool(Option<bool>),
    U8(Option<u8>),
    U32(Option<u32>),
    Str(Option<String>),
    Pointer(String, bool),
    Error(String, Option<String>),
}

impl View for Value {
    type V = ValueModel;

    open spec fn view(&self) -> ValueModel {
        match self {
            Value::Null => ValueModel::Null,
            Value::Bool(b) => ValueModel::Bool(*b),
            Value::U8(n) => ValueModel::U8(*n),
            Value::U32(n) => ValueModel::U32(*n),
            Value::Str(s) => ValueModel::Str(
                match s {
                    Some(t) => Some(t@),
                    None => None,
                },
            ),
            Value::Pointer(name, global) => ValueModel::Pointer(name@, *global),
            Value::Error(name, details) => ValueModel::Error(
                name@,
                match details {
                    Some(d) => Some(d@),
                    None => None,
                },
            ),
        }
    }
}

/// Type tag of a value model.
pub open spec fn spec_kind(v: ValueModel) -> ApicaTypeBytecode {
    match v {
        ValueModel::Null => ApicaTypeBytecode::Null,
        ValueModel::Bool(_) => ApicaTypeBytecode::Bool,
        ValueModel::U8(_) => ApicaTypeBytecode::U8,
        ValueModel::U32(_) => ApicaTypeBytecode::U32,
        ValueModel::Str(_) => ApicaTypeBytecode::String,
        ValueModel::Pointer(_, _) => ApicaTypeBytecode::Pointer,
        ValueModel::Error(_, _) => ApicaTypeBytecode::Error,
    }
}

/// The identity-preserving coercion of the value lattice.
///
/// `None` stands for a failed coercion, which the element layer turns into
/// a `ConversionError`. The unset payload of a scalar converts to the unset
/// payload of the target; `Pointer` and `Error` convert only to themselves;
/// no value converts to the `Null` type except `Null` itself.
pub open spec fn spec_convert(v: ValueModel, target: ApicaTypeBytecode) -> Option<ValueModel> {
    if spec_kind(v) == target {
        Some(v)
    } else {
        match v {
            ValueModel::Null => match target {
                ApicaTypeBytecode::Bool => Some(ValueModel::Bool(None)),
                ApicaTypeBytecode::U8 => Some(ValueModel::U8(None)),
                ApicaTypeBytecode::U32 => Some(ValueModel::U32(None)),
                ApicaTypeBytecode::String => Some(ValueModel::Str(None)),
                _ => None,
            },
            ValueModel::Bool(b) => match target {
                ApicaTypeBytecode::U8 => Some(
                    ValueModel::U8(
                        match b {
                            Some(x) => Some(if x { 1u8 } else { 0u8 }),
                            None => None,
                        },
                    ),
                ),
                ApicaTypeBytecode::U32 => Some(
                    ValueModel::U32(
                        match b {
                            Some(x) => Some(if x { 1u32 } else { 0u32 }),
                            None => None,
                        },
                    ),
                ),
                ApicaTypeBytecode::String => Some(
                    ValueModel::Str(
                        match b {
                            Some(x) => Some(if x { "true"@ } else { "false"@ }),
                            None => None,
                        },
                    ),
                ),
                _ => None,
            },
            ValueModel::U8(n) => match target {
                ApicaTypeBytecode::Bool => Some(
                    ValueModel::Bool(
                        match n {
                            Some(x) => Some(x != 0),
                            None => None,
                        },
                    ),
                ),
                ApicaTypeBytecode::U32 => Some(
                    ValueModel::U32(
                        match n {
                            Some(x) => Some(x as u32),
                            None => None,
                        },
                    ),
                ),
                ApicaTypeBytecode::String => Some(
                    ValueModel::Str(
                        match n {
                            Some(x) => Some(dec_str(x as nat)),
                            None => None,
                        },
                    ),
                ),
                _ => None,
            },
            ValueModel::U32(n) => match target {
                ApicaTypeBytecode::Bool => Some(
                    ValueModel::Bool(
                        match n {
                            Some(x) => Some(x != 0),
                            None => None,
                        },
                    ),
                ),
                ApicaTypeBytecode::U8 => Some(
                    ValueModel::U8(
                        match n {
                            Some(x) => Some((x % 256) as u8),
                            None => None,
                        },
                    ),
                ),
                ApicaTypeBytecode::String => Some(
                    ValueModel::Str(
                        match n {
                            Some(x) => Some(dec_str(x as nat)),
                            None => None,
                        },
                    ),
                ),
                _ => None,
            },
            ValueModel::Str(s) => match target {
                ApicaTypeBytecode::Bool => match s {
                    None => Some(ValueModel::Bool(None)),
                    Some(cs) => if cs == "true"@ {
                        Some(ValueModel::Bool(Some(true)))
                    } else if cs == "false"@ {
                        Some(ValueModel::Bool(Some(false)))
                    } else {
                        None
                    },
                },
                ApicaTypeBytecode::U8 => match s {
                    None => Some(ValueModel::U8(None)),
                    Some(cs) => match parse_dec(cs, 255) {
                        Some(n) => Some(ValueModel::U8(Some(n as u8))),
                        None => None,
                    },
                },
                ApicaTypeBytecode::U32 => match s {
                    None => Some(ValueModel::U32(None)),
                    Some(cs) => match parse_dec(cs, 0xffff_ffff) {
                        Some(n) => Some(ValueModel::U32(Some(n as u32))),
                        None => None,
                    },
                },
                _ => None,
            },
            ValueModel::Pointer(_, _) => None,
            ValueModel::Error(_, _) => None,
        }
    }
}

/// Rendering of a string payload: an unset payload shows as `null`.
pub open spec fn spec_render_str(p: Option<Seq<char>>) -> Seq<char> {
    match p {
        Some(s) => s,
        None => "null"@,
    }
}

/// Outcome of a value-level operator: a value, or a type error.
pub enum ValueOutcome {
    Value(ValueModel),
    TypeError,
}

/// The binary `+` of the value universe.
///
/// A `String` on either side concatenates after coercing the other side to
/// `String` (unset payloads render as `null`); two integers widen to the
/// larger width and add with wrap-around; two `Bool`s widen to `U8`; every
/// other pairing is a type error. An unset integer payload propagates as an
/// unset result payload.
pub open spec fn spec_add(l: ValueModel, r: ValueModel) -> ValueOutcome {
    if spec_kind(l) == ApicaTypeBytecode::String || spec_kind(r) == ApicaTypeBytecode::String {
        match (spec_convert(l, ApicaTypeBytecode::String), spec_convert(
            r,
            ApicaTypeBytecode::String,
        )) {
            (Some(ValueModel::Str(a)), Some(ValueModel::Str(b))) => ValueOutcome::Value(
                ValueModel::Str(Some(spec_render_str(a) + spec_render_str(b))),
            ),
            _ => ValueOutcome::TypeError,
        }
    } else {
        match (l, r) {
            (ValueModel::U8(a), ValueModel::U8(b)) => ValueOutcome::Value(
                ValueModel::U8(
                    match (a, b) {
                        (Some(x), Some(y)) => Some(((x as nat + y as nat) % 256) as u8),
                        _ => None,
                    },
                ),
            ),
            (ValueModel::U8(a), ValueModel::U32(b)) => ValueOutcome::Value(
                ValueModel::U32(
                    match (a, b) {
                        (Some(x), Some(y)) => Some(
                            ((x as nat + y as nat) % 0x1_0000_0000) as u32,
                        ),
                        _ => None,
                    },
                ),
            ),
            (ValueModel::U32(a), ValueModel::U8(b)) => ValueOutcome::Value(
                ValueModel::U32(
                    match (a, b) {
                        (Some(x), Some(y)) => Some(
                            ((x as nat + y as nat) % 0x1_0000_0000) as u32,
                        ),
                        _ => None,
                    },
                ),
            ),
            (ValueModel::U32(a), ValueModel::U32(b)) => ValueOutcome::Value(
                ValueModel::U32(
                    match (a, b) {
                        (Some(x), Some(y)) => Some(
                            ((x as nat + y as nat) % 0x1_0000_0000) as u32,
                        ),
                        _ => None,
                    },
                ),
            ),
            (ValueModel::Bool(a), ValueModel::Bool(b)) => ValueOutcome::Value(
                ValueModel::U8(
                    match (a, b) {
                        (Some(x), Some(y)) => Some(
                            ((if x { 1u8 } else { 0u8 }) + (if y { 1u8 } else { 0u8 })) as u8,
                        ),
                        _ => None,
                    },
                ),
            ),
            _ => ValueOutcome::TypeError,
        }
    }
}

/// The three in-place unary operators.
pub enum UnaryOp {
    Incr,
    Decr,
    NotOp,
}

/// The unary operators of the value universe.
///
/// Increment and decrement wrap on the integer widths and toggle a `Bool`;
/// `not` negates a `Bool` and coerces an integer to `Bool` before negating.
/// Unset payloads stay unset; every other kind is a type error.
pub open spec fn spec_unary(op: UnaryOp, v: ValueModel) -> ValueOutcome {
    match op {
        UnaryOp::Incr => match v {
            ValueModel::U8(n) => ValueOutcome::Value(
                ValueModel::U8(
                    match n {
                        Some(x) => Some(((x as nat + 1) % 256) as u8),
                        None => None,
                    },
                ),
            ),
            ValueModel::U32(n) => ValueOutcome::Value(
                ValueModel::U32(
                    match n {
                        Some(x) => Some(((x as nat + 1) % 0x1_0000_0000) as u32),
                        None => None,
                    },
                ),
            ),
            ValueModel::Bool(b) => ValueOutcome::Value(
                ValueModel::Bool(
                    match b {
                        Some(x) => Some(!x),
                        None => None,
                    },
                ),
            ),
            _ => ValueOutcome::TypeError,
        },
        UnaryOp::Decr => match v {
            ValueModel::U8(n) => ValueOutcome::Value(
                ValueModel::U8(
                    match n {
                        Some(x) => Some(((x as nat + 255) % 256) as u8),
                        None => None,
                    },
                ),
            ),
            ValueModel::U32(n) => ValueOutcome::Value(
                ValueModel::U32(
                    match n {
                        Some(x) => Some(((x as nat + 0xffff_ffff) % 0x1_0000_0000) as u32),
                        None => None,
                    },
                ),
            ),
            ValueModel::Bool(b) => ValueOutcome::Value(
                ValueModel::Bool(
                    match b {
                        Some(x) => Some(!x),
                        None => None,
                    },
                ),
            ),
            _ => ValueOutcome::TypeError,
        },
        UnaryOp::NotOp => match v {
            ValueModel::Bool(b) => ValueOutcome::Value(
                ValueModel::Bool(
                    match b {
                        Some(x) => Some(!x),
                        None => None,
                    },
                ),
            ),
            ValueModel::U8(n) => ValueOutcome::Value(
                ValueModel::Bool(
                    match n {
                        Some(x) => Some(x == 0),
                        None => None,
                    },
                ),
            ),
            ValueModel::U32(n) => ValueOutcome::Value(
                ValueModel::Bool(
                    match n {
                        Some(x) => Some(x == 0),
                        None => None,
                    },
                ),
            ),
            _ => ValueOutcome::TypeError,
        },
    }
}

impl Value {
    /// Type tag of this value.
    pub fn get_kind(&self) -> (k: ApicaTypeBytecode)
        ensures
            k == spec_kind(self@),
    {
        match self {
            Value::Null => ApicaTypeBytecode::Null,
            Value::Bool(_) => ApicaTypeBytecode::Bool,
            Value::U8(_) => ApicaTypeBytecode::U8,
            Value::U32(_) => ApicaTypeBytecode::U32,
            Value::Str(_) => ApicaTypeBytecode::String,
            Value::Pointer(_, _) => ApicaTypeBytecode::Pointer,
            Value::Error(_, _) => ApicaTypeBytecode::Error,
        }
    }

    /// Deep copy; the model is unchanged.
    pub fn duplicate(&self) -> (r: Value)
        ensures
            r@ == self@,
    {
        match self {
            Value::Null => Value::Null,
            Value::Bool(b) => Value::Bool(*b),
            Value::U8(n) => Value::U8(*n),
            Value::U32(n) => Value::U32(*n),
            Value::Str(s) => Value::Str(
                match s {
                    Some(t) => Some(t.clone()),
                    None => None,
                },
            ),
            Value::Pointer(name, global) => Value::Pointer(name.clone(), *global),
            Value::Error(name, details) => Value::Error(
                name.clone(),
                match details {
                    Some(d) => Some(d.clone()),
                    None => None,
                },
            ),
        }
    }

    /// The coercion of the value lattice, executable form.
    pub fn auto_convert(&self, target: ApicaTypeBytecode) -> (r: Option<Value>)
        ensures
            match r {
                Some(v) => spec_convert(self@, target) == Some(v@),
                None => spec_convert(self@, target) is None,
            },
    {
        let kind = self.get_kind();
        if kind == target {
            return Some(self.duplicate());
        }
        match self {
            Value::Null => match target {
                ApicaTypeBytecode::Bool => Some(Value::Bool(None)),
                ApicaTypeBytecode::U8 => Some(Value::U8(None)),
                ApicaTypeBytecode::U32 => Some(Value::U32(None)),
                ApicaTypeBytecode::String => Some(Value::Str(None)),
                _ => None,
            },
            Value::Bool(b) => match target {
                ApicaTypeBytecode::U8 => Some(
                    Value::U8(
                        match b {
                            Some(x) => Some(if *x { 1u8 } else { 0u8 }),
                            None => None,
                        },
                    ),
                ),
                ApicaTypeBytecode::U32 => Some(
                    Value::U32(
                        match b {
                            Some(x) => Some(if *x { 1u32 } else { 0u32 }),
                            None => None,
                        },
                    ),
                ),
                ApicaTypeBytecode::String => Some(
                    Value::Str(
                        match b {
                            Some(x) => Some(
                                if *x {
                                    "true".to_owned()
                                } else {
                                    "false".to_owned()
                                },
                            ),
                            None => None,
                        },
                    ),
                ),
                _ => None,
            },
            Value::U8(n) => match target {
                ApicaTypeBytecode::Bool => Some(
                    Value::Bool(
                        match n {
                            Some(x) => Some(*x != 0),
                            None => None,
                        },
                    ),
                ),
                ApicaTypeBytecode::U32 => Some(
                    Value::U32(
                        match n {
                            Some(x) => Some(*x as u32),
                            None => None,
                        },
                    ),
                ),
                ApicaTypeBytecode::String => Some(
                    Value::Str(
                        match n {
                            Some(x) => Some(crate::strutil::u32_to_dec(*x as u32)),
                            None => None,
                        },
                    ),
                ),
                _ => None,
            },
            Value::U32(n) => match target {
                ApicaTypeBytecode::Bool => Some(
                    Value::Bool(
                        match n {
                            Some(x) => Some(*x != 0),
                            None => None,
                        },
                    ),
                ),
                ApicaTypeBytecode::U8 => Some(
                    Value::U8(
                        match n {
                            Some(x) => Some((*x % 256) as u8),
                            None => None,
                        },
                    ),
                ),
                ApicaTypeBytecode::String => Some(
                    Value::Str(
                        match n {
                            Some(x) => Some(crate::strutil::u32_to_dec(*x)),
                            None => None,
                        },
                    ),
                ),
                _ => None,
            },
            Value::Str(s) => match target {
                ApicaTypeBytecode::Bool => match s {
                    None => Some(Value::Bool(None)),
                    Some(cs) => {
                        if *cs == "true".to_owned() {
                            Some(Value::Bool(Some(true)))
                        } else if *cs == "false".to_owned() {
                            Some(Value::Bool(Some(false)))
                        } else {
                            None
                        }
                    },
                },
                ApicaTypeBytecode::U8 => match s {
                    None => Some(Value::U8(None)),
                    Some(cs) => match crate::strutil::parse_dec_str(cs.as_str(), 255) {
                        Some(n) => Some(Value::U8(Some(n as u8))),
                        None => None,
                    },
                },
                ApicaTypeBytecode::U32 => match s {
                    None => Some(Value::U32(None)),
                    Some(cs) => match crate::strutil::parse_dec_str(cs.as_str(), 0xffff_ffff) {
                        Some(n) => Some(Value::U32(Some(n))),
                        None => None,
                    },
                },
                _ => None,
            },
            Value::Pointer(_, _) => None,
            Value::Error(_, _) => None,
        }
    }
}

} // verus!
