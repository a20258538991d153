//! Tagged scalar values: a number or a piece of text.
//!
//! Numbers carry the bit pattern of an IEEE 754 binary64 value.  Values are
//! immutable once constructed and cloned on read; equality and ordering are
//! structural.

use crate::error::{ErrorModel, OpKind, VmError};
use crate::numeric::{
    add_bits, bool_to_num_spec, div_bits, eq_bits, finite_bits, le_bits, lt_bits, mul_bits,
    neg_bits, nonzero_bits, num_add, num_div, num_eq, num_from_text, num_le, num_lt, num_mul,
    num_neg, num_nonzero, num_of_text, num_rem, num_sub, num_to_text, rem_bits, sub_bits,
    text_of_num, ONE_BITS, ZERO_BITS,
};
use crate::text::{seq_le, seq_lt, text_le, text_lt, trim, trim_spec};
use vstd::prelude::*;
use vstd::string::{StrSliceExecFns, StringExecFns};

verus! {

/// The mathematical image of a [`Value`].
pub enum ValueModel {
    Num(u64),
    Text(Seq<char>),
}

/// A tagged scalar: a number (held as its binary64 bit pattern) or text.
#[derive(Debug, PartialEq)]
pub enum Value {
    Num(u64),
    Text(String),
}

impl View for Value {
    type V = ValueModel;

    open spec fn view(&self) -> ValueModel {
        match self {
            Value::Num(bits) => ValueModel::Num(*bits),
            Value::Text(s) => ValueModel::Text(s@),
        }
    }
}

impl Clone for Value {
    fn clone(&self) -> (r: Self)
        ensures
            r@ == self@,
    {
        match self {
            Value::Num(bits) => Value::Num(*bits),
            Value::Text(s) => Value::Text(s.clone()),
        }
    }
}

/// A stack of values, viewed element by element.
pub open spec fn stack_model(s: Seq<Value>) -> Seq<ValueModel> {
    s.map_values(|v: Value| v@)
}

/// A `Result` of value against error, viewed on both sides.
pub open spec fn res_model(r: Result<Value, VmError>) -> Result<ValueModel, ErrorModel> {
    match r {
        Ok(v) => Ok(v@),
        Err(e) => Err(e@),
    }
}

/// Whether a value counts as true: a number distinct from zero, or non-empty
/// text.
pub open spec fn val_truthy(v: ValueModel) -> bool {
    match v {
        ValueModel::Num(a) => nonzero_bits(a),
        ValueModel::Text(s) => s.len() > 0,
    }
}

/// The textual rendering of a value: numbers in their decimal form, text
/// verbatim.
pub open spec fn val_to_text(v: ValueModel) -> Seq<char> {
    match v {
        ValueModel::Num(a) => text_of_num(a),
        ValueModel::Text(s) => s,
    }
}

/// Addition: two numbers add; any combination involving text concatenates the
/// renderings of both operands, left before right.  Never fails.
pub open spec fn val_add(a: ValueModel, b: ValueModel) -> Result<ValueModel, ErrorModel> {
    match (a, b) {
        (ValueModel::Num(x), ValueModel::Num(y)) => Ok(ValueModel::Num(add_bits(x, y))),
        (ValueModel::Text(x), ValueModel::Text(y)) => Ok(ValueModel::Text(x + y)),
        (ValueModel::Text(x), ValueModel::Num(y)) => Ok(ValueModel::Text(x + text_of_num(y))),
        (ValueModel::Num(x), ValueModel::Text(y)) => Ok(ValueModel::Text(text_of_num(x) + y)),
    }
}

/// Subtraction of two numbers; anything else is a type mismatch.
pub open spec fn val_sub(a: ValueModel, b: ValueModel) -> Result<ValueModel, ErrorModel> {
    match (a, b) {
        (ValueModel::Num(x), ValueModel::Num(y)) => Ok(ValueModel::Num(sub_bits(x, y))),
        _ => Err(ErrorModel::TypeMismatch(OpKind::Sub, a, Some(b))),
    }
}

/// Multiplication of two numbers; anything else is a type mismatch.
pub open spec fn val_mul(a: ValueModel, b: ValueModel) -> Result<ValueModel, ErrorModel> {
    match (a, b) {
        (ValueModel::Num(x), ValueModel::Num(y)) => Ok(ValueModel::Num(mul_bits(x, y))),
        _ => Err(ErrorModel::TypeMismatch(OpKind::Mul, a, Some(b))),
    }
}

/// Division of two numbers; anything else is a type mismatch.
pub open spec fn val_div(a: ValueModel, b: ValueModel) -> Result<ValueModel, ErrorModel> {
    match (a, b) {
        (ValueModel::Num(x), ValueModel::Num(y)) => Ok(ValueModel::Num(div_bits(x, y))),
        _ => Err(ErrorModel::TypeMismatch(OpKind::Div, a, Some(b))),
    }
}

/// Remainder of two numbers; anything else is a type mismatch.
pub open spec fn val_mod(a: ValueModel, b: ValueModel) -> Result<ValueModel, ErrorModel> {
    match (a, b) {
        (ValueModel::Num(x), ValueModel::Num(y)) => Ok(ValueModel::Num(rem_bits(x, y))),
        _ => Err(ErrorModel::TypeMismatch(OpKind::Mod, a, Some(b))),
    }
}

/// Equality, producing 1.0 or 0.0: numbers compare with the epsilon
/// tolerance, text compares structurally; mixed kinds are a type mismatch.
pub open spec fn val_eq(a: ValueModel, b: ValueModel) -> Result<ValueModel, ErrorModel> {
    match (a, b) {
        (ValueModel::Num(x), ValueModel::Num(y)) => Ok(
            ValueModel::Num(bool_to_num_spec(eq_bits(x, y))),
        ),
        (ValueModel::Text(x), ValueModel::Text(y)) => Ok(
            ValueModel::Num(bool_to_num_spec(x == y)),
        ),
        _ => Err(ErrorModel::TypeMismatch(OpKind::Eq, a, Some(b))),
    }
}

/// Inequality: the inversion of [`val_eq`], failing exactly where it fails.
pub open spec fn val_ne(a: ValueModel, b: ValueModel) -> Result<ValueModel, ErrorModel> {
    match val_eq(a, b) {
        Ok(v) => val_not(v),
        Err(e) => Err(e),
    }
}

/// Strict order, producing 1.0 or 0.0: numbers by the IEEE comparison, text
/// lexicographically; mixed kinds are a type mismatch.
pub open spec fn val_lt(a: ValueModel, b: ValueModel) -> Result<ValueModel, ErrorModel> {
    match (a, b) {
        (ValueModel::Num(x), ValueModel::Num(y)) => Ok(
            ValueModel::Num(bool_to_num_spec(lt_bits(x, y))),
        ),
        (ValueModel::Text(x), ValueModel::Text(y)) => Ok(
            ValueModel::Num(bool_to_num_spec(seq_lt(x, y))),
        ),
        _ => Err(ErrorModel::TypeMismatch(OpKind::Lt, a, Some(b))),
    }
}

/// Reflexive order, producing 1.0 or 0.0.
pub open spec fn val_le(a: ValueModel, b: ValueModel) -> Result<ValueModel, ErrorModel> {
    match (a, b) {
        (ValueModel::Num(x), ValueModel::Num(y)) => Ok(
            ValueModel::Num(bool_to_num_spec(le_bits(x, y))),
        ),
        (ValueModel::Text(x), ValueModel::Text(y)) => Ok(
            ValueModel::Num(bool_to_num_spec(seq_le(x, y))),
        ),
        _ => Err(ErrorModel::TypeMismatch(OpKind::Le, a, Some(b))),
    }
}

/// Strict order the other way: `a > b` holds exactly where `b < a` does.
pub open spec fn val_gt(a: ValueModel, b: ValueModel) -> Result<ValueModel, ErrorModel> {
    match (a, b) {
        (ValueModel::Num(x), ValueModel::Num(y)) => Ok(
            ValueModel::Num(bool_to_num_spec(lt_bits(y, x))),
        ),
        (ValueModel::Text(x), ValueModel::Text(y)) => Ok(
            ValueModel::Num(bool_to_num_spec(seq_lt(y, x))),
        ),
        _ => Err(ErrorModel::TypeMismatch(OpKind::Gt, a, Some(b))),
    }
}

/// Reflexive order the other way: `a >= b` holds exactly where `b <= a` does.
pub open spec fn val_ge(a: ValueModel, b: ValueModel) -> Result<ValueModel, ErrorModel> {
    match (a, b) {
        (ValueModel::Num(x), ValueModel::Num(y)) => Ok(
            ValueModel::Num(bool_to_num_spec(le_bits(y, x))),
        ),
        (ValueModel::Text(x), ValueModel::Text(y)) => Ok(
            ValueModel::Num(bool_to_num_spec(seq_le(y, x))),
        ),
        _ => Err(ErrorModel::TypeMismatch(OpKind::Ge, a, Some(b))),
    }
}

/// Logical conjunction of two numbers, by their truthiness.
pub open spec fn val_and(a: ValueModel, b: ValueModel) -> Result<ValueModel, ErrorModel> {
    match (a, b) {
        (ValueModel::Num(x), ValueModel::Num(y)) => Ok(
            ValueModel::Num(bool_to_num_spec(nonzero_bits(x) && nonzero_bits(y))),
        ),
        _ => Err(ErrorModel::TypeMismatch(OpKind::And, a, Some(b))),
    }
}

/// Logical disjunction of two numbers, by their truthiness.
pub open spec fn val_or(a: ValueModel, b: ValueModel) -> Result<ValueModel, ErrorModel> {
    match (a, b) {
        (ValueModel::Num(x), ValueModel::Num(y)) => Ok(
            ValueModel::Num(bool_to_num_spec(nonzero_bits(x) || nonzero_bits(y))),
        ),
        _ => Err(ErrorModel::TypeMismatch(OpKind::Or, a, Some(b))),
    }
}

/// Logical negation of a number.
pub open spec fn val_not(a: ValueModel) -> Result<ValueModel, ErrorModel> {
    match a {
        ValueModel::Num(x) => Ok(ValueModel::Num(bool_to_num_spec(!nonzero_bits(x)))),
        _ => Err(ErrorModel::TypeMismatch(OpKind::Not, a, None)),
    }
}

/// Arithmetic negation of a number.
pub open spec fn val_neg(a: ValueModel) -> Result<ValueModel, ErrorModel> {
    match a {
        ValueModel::Num(x) => Ok(ValueModel::Num(neg_bits(x))),
        _ => Err(ErrorModel::TypeMismatch(OpKind::Neg, a, None)),
    }
}

/// What a piece of text denotes, once trimmed: a quoted literal denotes its
/// inside, anything else must be a numeral.
pub open spec fn parse_value(s: Seq<char>) -> Result<ValueModel, ErrorModel> {
    let t = trim_spec(s);
    if t.len() >= 2 && ((t[0] == '"' && t.last() == '"') || (t[0] == '\'' && t.last() == '\'')) {
        Ok(ValueModel::Text(t.subrange(1, t.len() - 1)))
    } else {
        match num_of_text(t) {
            Some(bits) => Ok(ValueModel::Num(bits)),
            None => Err(ErrorModel::InvalidLiteral(t)),
        }
    }
}

impl Value {
    /// Reads a value from text: after trimming, a single- or double-quoted
    /// literal gives its inside as text, anything else must be a numeral.
    pub fn from_str(s: &str) -> (r: Result<Value, VmError>)
        requires
            s@.len() < 0x8000_0000,
        ensures
            res_model(r) == parse_value(s@),
    {
        let t: String = trim(s);
        let n: usize = t.as_str().unicode_len();
        if n >= 2 {
            let first = t.as_str().get_char(0);
            let last = t.as_str().get_char(n - 1);
            if (first == '"' && last == '"') || (first == '\'' && last == '\'') {
                let inner: &str = t.as_str().substring_char(1, n - 1);
                return Ok(Value::Text(inner.to_owned()));
            }
        }
        match num_from_text(t.as_str()) {
            Some(bits) => Ok(Value::Num(bits)),
            None => Err(VmError::InvalidLiteral(t)),
        }
    }

    /// Whether this value counts as true.
    pub fn is_truthy(&self) -> (r: bool)
        ensures
            r == val_truthy(self@),
    {
        match self {
            Value::Num(a) => num_nonzero(*a),
            Value::Text(s) => s.as_str().unicode_len() > 0,
        }
    }

    /// The textual rendering of this value.
    pub fn to_text(&self) -> (r: String)
        ensures
            r@ == val_to_text(self@),
    {
        match self {
            Value::Num(a) => num_to_text(*a),
            Value::Text(s) => s.clone(),
        }
    }

    /// Addition, with text concatenation and number-to-text coercion.
    pub fn add(&self, other: &Self) -> (r: Result<Value, VmError>)
        ensures
            res_model(r) == val_add(self@, other@),
    {
        match (self, other) {
            (Value::Num(a), Value::Num(b)) => Ok(Value::Num(num_add(*a, *b))),
            (Value::Text(a), Value::Text(b)) => Ok(Value::Text(a.clone().concat(b.as_str()))),
            (Value::Text(a), Value::Num(b)) => Ok(
                Value::Text(a.clone().concat(num_to_text(*b).as_str())),
            ),
            (Value::Num(a), Value::Text(b)) => Ok(Value::Text(num_to_text(*a).concat(b.as_str()))),
        }
    }

    /// Subtraction of two numbers.
    pub fn sub(&self, other: &Self) -> (r: Result<Value, VmError>)
        ensures
            res_model(r) == val_sub(self@, other@),
    {
        match (self, other) {
            (Value::Num(a), Value::Num(b)) => Ok(Value::Num(num_sub(*a, *b))),
            _ => Err(VmError::TypeMismatch(OpKind::Sub, self.clone(), Some(other.clone()))),
        }
    }

    /// Multiplication of two numbers.
    pub fn mul(&self, other: &Self) -> (r: Result<Value, VmError>)
        ensures
            res_model(r) == val_mul(self@, other@),
    {
        match (self, other) {
            (Value::Num(a), Value::Num(b)) => Ok(Value::Num(num_mul(*a, *b))),
            _ => Err(VmError::TypeMismatch(OpKind::Mul, self.clone(), Some(other.clone()))),
        }
    }

    /// Division of two numbers.
    pub fn div(&self, other: &Self) -> (r: Result<Value, VmError>)
        ensures
            res_model(r) == val_div(self@, other@),
    {
        match (self, other) {
            (Value::Num(a), Value::Num(b)) => Ok(Value::Num(num_div(*a, *b))),
            _ => Err(VmError::TypeMismatch(OpKind::Div, self.clone(), Some(other.clone()))),
        }
    }

    /// Remainder of two numbers.
    pub fn modulo(&self, other: &Self) -> (r: Result<Value, VmError>)
        ensures
            res_model(r) == val_mod(self@, other@),
    {
        match (self, other) {
            (Value::Num(a), Value::Num(b)) => Ok(Value::Num(num_rem(*a, *b))),
            _ => Err(VmError::TypeMismatch(OpKind::Mod, self.clone(), Some(other.clone()))),
        }
    }

    /// Equality, producing Number 1.0 or 0.0.
    pub fn eq(&self, other: &Self) -> (r: Result<Value, VmError>)
        ensures
            res_model(r) == val_eq(self@, other@),
    {
        match (self, other) {
            (Value::Num(a), Value::Num(b)) => Ok(Value::Num(bool_to_num(num_eq(*a, *b)))),
            (Value::Text(a), Value::Text(b)) => Ok(Value::Num(bool_to_num(String::eq(a, b)))),
            _ => Err(VmError::TypeMismatch(OpKind::Eq, self.clone(), Some(other.clone()))),
        }
    }

    /// Inequality: equality inverted.
    pub fn ne(&self, other: &Self) -> (r: Result<Value, VmError>)
        ensures
            res_model(r) == val_ne(self@, other@),
    {
        match self.eq(other) {
            Ok(v) => v.not(),
            Err(e) => Err(e),
        }
    }

    /// Strict order, producing Number 1.0 or 0.0.
    pub fn lt(&self, other: &Self) -> (r: Result<Value, VmError>)
        ensures
            res_model(r) == val_lt(self@, other@),
    {
        match (self, other) {
            (Value::Num(a), Value::Num(b)) => Ok(Value::Num(bool_to_num(num_lt(*a, *b)))),
            (Value::Text(a), Value::Text(b)) => Ok(
                Value::Num(bool_to_num(text_lt(a.as_str(), b.as_str()))),
            ),
            _ => Err(VmError::TypeMismatch(OpKind::Lt, self.clone(), Some(other.clone()))),
        }
    }

    /// Reflexive order, producing Number 1.0 or 0.0.
    pub fn le(&self, other: &Self) -> (r: Result<Value, VmError>)
        ensures
            res_model(r) == val_le(self@, other@),
    {
        match (self, other) {
            (Value::Num(a), Value::Num(b)) => Ok(Value::Num(bool_to_num(num_le(*a, *b)))),
            (Value::Text(a), Value::Text(b)) => Ok(
                Value::Num(bool_to_num(text_le(a.as_str(), b.as_str()))),
            ),
            _ => Err(VmError::TypeMismatch(OpKind::Le, self.clone(), Some(other.clone()))),
        }
    }

    /// Strict order the other way.
    pub fn gt(&self, other: &Self) -> (r: Result<Value, VmError>)
        ensures
            res_model(r) == val_gt(self@, other@),
    {
        match (self, other) {
            (Value::Num(a), Value::Num(b)) => Ok(Value::Num(bool_to_num(num_lt(*b, *a)))),
            (Value::Text(a), Value::Text(b)) => Ok(
                Value::Num(bool_to_num(text_lt(b.as_str(), a.as_str()))),
            ),
            _ => Err(VmError::TypeMismatch(OpKind::Gt, self.clone(), Some(other.clone()))),
        }
    }

    /// Reflexive order the other way.
    pub fn ge(&self, other: &Self) -> (r: Result<Value, VmError>)
        ensures
            res_model(r) == val_ge(self@, other@),
    {
        match (self, other) {
            (Value::Num(a), Value::Num(b)) => Ok(Value::Num(bool_to_num(num_le(*b, *a)))),
            (Value::Text(a), Value::Text(b)) => Ok(
                Value::Num(bool_to_num(text_le(b.as_str(), a.as_str()))),
            ),
            _ => Err(VmError::TypeMismatch(OpKind::Ge, self.clone(), Some(other.clone()))),
        }
    }

    /// Logical conjunction of two numbers.
    pub fn and(&self, other: &Self) -> (r: Result<Value, VmError>)
        ensures
            res_model(r) == val_and(self@, other@),
    {
        match (self, other) {
            (Value::Num(a), Value::Num(b)) => Ok(
                Value::Num(bool_to_num(num_nonzero(*a) && num_nonzero(*b))),
            ),
            _ => Err(VmError::TypeMismatch(OpKind::And, self.clone(), Some(other.clone()))),
        }
    }

    /// Logical disjunction of two numbers.
    pub fn or(&self, other: &Self) -> (r: Result<Value, VmError>)
        ensures
            res_model(r) == val_or(self@, other@),
    {
        match (self, other) {
            (Value::Num(a), Value::Num(b)) => Ok(
                Value::Num(bool_to_num(num_nonzero(*a) || num_nonzero(*b))),
            ),
            _ => Err(VmError::TypeMismatch(OpKind::Or, self.clone(), Some(other.clone()))),
        }
    }

    /// Logical negation of a number.
    pub fn not(&self) -> (r: Result<Value, VmError>)
        ensures
            res_model(r) == val_not(self@),
    {
        match self {
            Value::Num(a) => Ok(Value::Num(bool_to_num(!num_nonzero(*a)))),
            _ => Err(VmError::TypeMismatch(OpKind::Not, self.clone(), None)),
        }
    }

    /// Arithmetic negation of a number.
    pub fn neg(&self) -> (r: Result<Value, VmError>)
        ensures
            res_model(r) == val_neg(self@),
    {
        match self {
            Value::Num(a) => Ok(Value::Num(num_neg(*a))),
            _ => Err(VmError::TypeMismatch(OpKind::Neg, self.clone(), None)),
        }
    }
}

/// The Number standing for a truth value: 1.0 for true, 0.0 for false.
pub fn bool_to_num(b: bool) -> (r: u64)
    ensures
        r == bool_to_num_spec(b),
{
    if b {
        ONE_BITS
    } else {
        ZERO_BITS
    }
}

/// Testing equality of two numbers one way round gives the same answer as the
/// other way round.
pub proof fn lemma_eq_num_symmetric(a: u64, b: u64)
    ensures
        val_eq(ValueModel::Num(a), ValueModel::Num(b)) == val_eq(
            ValueModel::Num(b),
            ValueModel::Num(a),
        ),
{
}

/// A finite number equals itself, however it was computed: the magnitude of
/// its difference from itself is exactly zero, below any tolerance.
pub proof fn lemma_eq_num_reflexive(a: u64)
    requires
        finite_bits(a),
    ensures
        val_eq(ValueModel::Num(a), ValueModel::Num(a)) == Ok::<ValueModel, ErrorModel>(
            ValueModel::Num(ONE_BITS),
        ),
{
}

/// Adding two text values concatenates them in call order.
pub proof fn lemma_add_text_order(a: Seq<char>, b: Seq<char>)
    ensures
        val_add(ValueModel::Text(a), ValueModel::Text(b)) == Ok::<ValueModel, ErrorModel>(
            ValueModel::Text(a + b),
        ),
{
}

/// Adding text and a number renders the number in its decimal form and
/// concatenates, keeping call order on either side.
pub proof fn lemma_add_coercion_order(a: Seq<char>, n: u64)
    ensures
        val_add(ValueModel::Text(a), ValueModel::Num(n)) == Ok::<ValueModel, ErrorModel>(
            ValueModel::Text(a + text_of_num(n)),
        ),
        val_add(ValueModel::Num(n), ValueModel::Text(a)) == Ok::<ValueModel, ErrorModel>(
            ValueModel::Text(text_of_num(n) + a),
        ),
{
}

} // verus!
