use apica::element::{Element, MOD_CONST, MOD_ERROR, MOD_NONE};
use apica::tags::ApicaTypeBytecode;
use apica::value::Value;

fn str_value(text: &str) -> Value {
    Value::Str(Some(text.to_string()))
}

#[test]
fn u8_renders_as_decimal_string() {
    let v = Value::U8(Some(200));
    let converted = v.auto_convert(ApicaTypeBytecode::String).unwrap();
    match converted {
        Value::Str(Some(s)) => assert_eq!(s, "200"),
        _ => panic!("expected a string value"),
    }
}

#[test]
fn string_parses_back_to_u8() {
    let v = str_value("42");
    let converted = v.auto_convert(ApicaTypeBytecode::U8).unwrap();
    match converted {
        Value::U8(Some(n)) => assert_eq!(n, 42),
        _ => panic!("expected a u8 value"),
    }
}

#[test]
fn coercion_round_trip_u8_through_string() {
    let v = Value::U8(Some(7));
    let there = v.auto_convert(ApicaTypeBytecode::String).unwrap();
    let back = there.auto_convert(ApicaTypeBytecode::U8).unwrap();
    match back {
        Value::U8(Some(n)) => assert_eq!(n, 7),
        _ => panic!("expected a u8 value"),
    }
}

#[test]
fn coercion_round_trip_u8_through_u32() {
    let v = Value::U8(Some(255));
    let there = v.auto_convert(ApicaTypeBytecode::U32).unwrap();
    let back = there.auto_convert(ApicaTypeBytecode::U8).unwrap();
    match back {
        Value::U8(Some(n)) => assert_eq!(n, 255),
        _ => panic!("expected a u8 value"),
    }
}

#[test]
fn coercion_round_trip_bool_through_string() {
    let v = Value::Bool(Some(true));
    let there = v.auto_convert(ApicaTypeBytecode::String).unwrap();
    match &there {
        Value::Str(Some(s)) => assert_eq!(s, "true"),
        _ => panic!("expected a string value"),
    }
    let back = there.auto_convert(ApicaTypeBytecode::Bool).unwrap();
    match back {
        Value::Bool(Some(b)) => assert!(b),
        _ => panic!("expected a bool value"),
    }
}

#[test]
fn u32_narrows_modulo_256() {
    let v = Value::U32(Some(300));
    let converted = v.auto_convert(ApicaTypeBytecode::U8).unwrap();
    match converted {
        Value::U8(Some(n)) => assert_eq!(n, 44),
        _ => panic!("expected a u8 value"),
    }
}

#[test]
fn unparsable_string_fails_conversion() {
    let v = str_value("seven");
    assert!(v.auto_convert(ApicaTypeBytecode::U8).is_none());
    let e = Element::init(MOD_NONE, str_value("seven")).check_convert(ApicaTypeBytecode::U8);
    assert_ne!(e.get_modifier() & MOD_ERROR, 0);
    match e.get_value() {
        Value::Error(kind, _) => assert_eq!(kind, "ConversionError"),
        _ => panic!("expected an error value"),
    }
}

#[test]
fn pointer_converts_only_to_itself() {
    let v = Value::Pointer("x".to_string(), false);
    assert!(v.auto_convert(ApicaTypeBytecode::String).is_none());
    assert!(v.auto_convert(ApicaTypeBytecode::Pointer).is_some());
}

#[test]
fn add_wraps_on_u8() {
    let l = Element::init(MOD_NONE, Value::U8(Some(255)));
    let r = Element::init(MOD_NONE, Value::U8(Some(1)));
    let sum = l.add(&r);
    match sum.get_value() {
        Value::U8(Some(n)) => assert_eq!(*n, 0),
        _ => panic!("expected a u8 value"),
    }
}

#[test]
fn add_widens_mixed_integers_to_u32() {
    let l = Element::init(MOD_NONE, Value::U8(Some(200)));
    let r = Element::init(MOD_NONE, Value::U32(Some(100)));
    let sum = l.add(&r);
    match sum.get_value() {
        Value::U32(Some(n)) => assert_eq!(*n, 300),
        _ => panic!("expected a u32 value"),
    }
}

#[test]
fn add_concatenates_with_string_side() {
    let l = Element::init(MOD_NONE, str_value("a"));
    let r = Element::init(MOD_NONE, Value::U8(Some(2)));
    let sum = l.add(&r);
    match sum.get_value() {
        Value::Str(Some(s)) => assert_eq!(s, "a2"),
        _ => panic!("expected a string value"),
    }
}

#[test]
fn add_null_and_number_is_type_error() {
    let l = Element::init(MOD_NONE, Value::Null);
    let r = Element::init(MOD_NONE, Value::U8(Some(2)));
    let sum = l.add(&r);
    assert_ne!(sum.get_modifier() & MOD_ERROR, 0);
    match sum.get_value() {
        Value::Error(kind, _) => assert_eq!(kind, "TypeError"),
        _ => panic!("expected an error value"),
    }
}

#[test]
fn increment_wraps_and_toggles() {
    let mut n = Element::init(MOD_NONE, Value::U8(Some(255)));
    let r = n.increment();
    match r.get_value() {
        Value::U8(Some(v)) => assert_eq!(*v, 0),
        _ => panic!("expected a u8 value"),
    }
    let mut b = Element::init(MOD_NONE, Value::Bool(Some(false)));
    let rb = b.increment();
    match rb.get_value() {
        Value::Bool(Some(v)) => assert!(*v),
        _ => panic!("expected a bool value"),
    }
}

#[test]
fn decrement_wraps_below_zero() {
    let mut n = Element::init(MOD_NONE, Value::U32(Some(0)));
    let r = n.decrement();
    match r.get_value() {
        Value::U32(Some(v)) => assert_eq!(*v, u32::MAX),
        _ => panic!("expected a u32 value"),
    }
}

#[test]
fn not_coerces_numbers_to_bool() {
    let mut n = Element::init(MOD_NONE, Value::U8(Some(0)));
    let r = n.not();
    match r.get_value() {
        Value::Bool(Some(v)) => assert!(*v),
        _ => panic!("expected a bool value"),
    }
    let mut s = Element::init(MOD_NONE, str_value("x"));
    let rs = s.not();
    assert_ne!(rs.get_modifier() & MOD_ERROR, 0);
}

#[test]
fn const_modifier_is_detected() {
    let e = Element::init(MOD_CONST, Value::U8(Some(1)));
    assert!(e.has_modifier(MOD_CONST));
    assert!(!e.is_error_or_controller());
}
