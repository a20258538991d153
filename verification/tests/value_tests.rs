//! Tests of values: arithmetic, comparison, coercion, parsing, rendering.

use vm::error::{OpKind, VmError};
use vm::label::{label, Label};
use vm::value::Value;

fn num(x: f64) -> Value {
    Value::Num(x.to_bits())
}

fn text(s: &str) -> Value {
    Value::Text(s.to_string())
}

#[test]
fn test_eq_symmetric_and_reflexive() {
    // The sum is subject to rounding: 0.1 + 0.2 differs from 0.3 by one ulp,
    // well inside the epsilon tolerance.
    let a = num(0.1 + 0.2);
    let b = num(0.3);
    assert_ne!((0.1f64 + 0.2f64).to_bits(), 0.3f64.to_bits());
    assert_eq!(a.eq(&b).unwrap(), num(1.0));
    assert_eq!(b.eq(&a).unwrap(), num(1.0));
    assert_eq!(a.eq(&a).unwrap(), num(1.0));
    let c = num(2.5);
    let d = num(-7.0);
    assert_eq!(c.eq(&d).unwrap(), num(0.0));
    assert_eq!(d.eq(&c).unwrap(), num(0.0));
}

#[test]
fn test_eq_text_and_mismatch() {
    assert_eq!(text("ab").eq(&text("ab")).unwrap(), num(1.0));
    assert_eq!(text("ab").eq(&text("ba")).unwrap(), num(0.0));
    match text("ab").eq(&num(1.0)) {
        Err(VmError::TypeMismatch(OpKind::Eq, _, _)) => {}
        other => panic!("expected a type mismatch, got {:?}", other),
    }
}

#[test]
fn test_ne_inverts_eq() {
    assert_eq!(num(1.0).ne(&num(1.0)).unwrap(), num(0.0));
    assert_eq!(num(1.0).ne(&num(2.0)).unwrap(), num(1.0));
    assert_eq!(text("x").ne(&text("y")).unwrap(), num(1.0));
}

#[test]
fn test_add_numbers() {
    assert_eq!(num(2.0).add(&num(3.0)).unwrap(), num(5.0));
    assert_eq!(num(0.1).add(&num(0.2)).unwrap(), num(0.1 + 0.2));
}

#[test]
fn test_add_text_concatenates_in_call_order() {
    assert_eq!(text("ab").add(&text("cd")).unwrap(), text("abcd"));
    assert_eq!(text("cd").add(&text("ab")).unwrap(), text("cdab"));
}

#[test]
fn test_add_coerces_numbers_to_text() {
    assert_eq!(text("x=").add(&num(3.5)).unwrap(), text("x=3.5"));
    assert_eq!(num(3.5).add(&text("=x")).unwrap(), text("3.5=x"));
    assert_eq!(text("n").add(&num(7.0)).unwrap(), text("n7"));
}

#[test]
fn test_sub_mul_div_mod() {
    assert_eq!(num(5.0).sub(&num(2.0)).unwrap(), num(3.0));
    assert_eq!(num(6.0).mul(&num(7.0)).unwrap(), num(42.0));
    assert_eq!(num(1.0).div(&num(2.0)).unwrap(), num(0.5));
    assert_eq!(num(7.0).modulo(&num(3.0)).unwrap(), num(1.0));
    assert_eq!(num(-7.0).modulo(&num(3.0)).unwrap(), num(-7.0 % 3.0));
    match text("a").sub(&num(1.0)) {
        Err(VmError::TypeMismatch(OpKind::Sub, _, _)) => {}
        other => panic!("expected a type mismatch, got {:?}", other),
    }
}

#[test]
fn test_orderings_on_numbers() {
    assert_eq!(num(1.0).lt(&num(2.0)).unwrap(), num(1.0));
    assert_eq!(num(2.0).lt(&num(1.0)).unwrap(), num(0.0));
    assert_eq!(num(2.0).le(&num(2.0)).unwrap(), num(1.0));
    assert_eq!(num(3.0).gt(&num(2.0)).unwrap(), num(1.0));
    assert_eq!(num(2.0).ge(&num(3.0)).unwrap(), num(0.0));
    // A NaN is unordered against everything.
    assert_eq!(num(f64::NAN).lt(&num(1.0)).unwrap(), num(0.0));
    assert_eq!(num(1.0).lt(&num(f64::NAN)).unwrap(), num(0.0));
}

#[test]
fn test_orderings_on_text() {
    assert_eq!(text("abc").lt(&text("abd")).unwrap(), num(1.0));
    assert_eq!(text("abd").lt(&text("abc")).unwrap(), num(0.0));
    assert_eq!(text("ab").lt(&text("abc")).unwrap(), num(1.0));
    assert_eq!(text("ab").le(&text("ab")).unwrap(), num(1.0));
    assert_eq!(text("b").gt(&text("a")).unwrap(), num(1.0));
    assert_eq!(text("a").ge(&text("b")).unwrap(), num(0.0));
}

#[test]
fn test_logic() {
    assert_eq!(num(2.0).and(&num(3.0)).unwrap(), num(1.0));
    assert_eq!(num(0.0).and(&num(3.0)).unwrap(), num(0.0));
    assert_eq!(num(0.0).or(&num(3.0)).unwrap(), num(1.0));
    assert_eq!(num(0.0).or(&num(0.0)).unwrap(), num(0.0));
    assert_eq!(num(0.0).not().unwrap(), num(1.0));
    assert_eq!(num(5.0).not().unwrap(), num(0.0));
    assert_eq!(num(5.0).neg().unwrap(), num(-5.0));
    assert_eq!(num(-0.0).neg().unwrap(), num(0.0));
    match text("t").and(&num(1.0)) {
        Err(VmError::TypeMismatch(OpKind::And, _, _)) => {}
        other => panic!("expected a type mismatch, got {:?}", other),
    }
}

#[test]
fn test_truthiness() {
    assert!(num(1.0).is_truthy());
    assert!(num(-2.5).is_truthy());
    assert!(!num(0.0).is_truthy());
    assert!(!num(-0.0).is_truthy());
    assert!(num(f64::NAN).is_truthy());
    assert!(!text("").is_truthy());
    assert!(text(" ").is_truthy());
}

#[test]
fn test_from_str_numbers() {
    assert_eq!(Value::from_str("136").unwrap(), num(136.0));
    assert_eq!(Value::from_str("  55  ").unwrap(), num(55.0));
    assert_eq!(Value::from_str("-2.5").unwrap(), num(-2.5));
}

#[test]
fn test_from_str_quoted() {
    assert_eq!(Value::from_str("\"hello\"").unwrap(), text("hello"));
    assert_eq!(Value::from_str("  'hi there'  ").unwrap(), text("hi there"));
    assert_eq!(Value::from_str("\"\"").unwrap(), text(""));
}

#[test]
fn test_from_str_invalid() {
    match Value::from_str(" not a number ") {
        Err(VmError::InvalidLiteral(s)) => assert_eq!(s, "not a number"),
        other => panic!("expected an invalid literal, got {:?}", other),
    }
}

#[test]
fn test_to_text() {
    assert_eq!(num(1.0).to_text(), "1");
    assert_eq!(num(3.5).to_text(), "3.5");
    assert_eq!(text("verbatim").to_text(), "verbatim");
}

#[test]
fn test_label_construction() {
    assert_eq!(label("Function", "_main_"), Label::new("$$Function__main_$$"));
    assert_eq!(Label::new("  $$x$$  "), Label::new("$$x$$"));
    assert!(Label::from_str(" $$f$$ ").is_some());
    assert!(Label::from_str("plain").is_none());
    assert!(Label::from_str("$$unclosed").is_none());
}
