//! The operators of the language on evaluated values.
use vstd::prelude::*;

use crate::expression::{Literal, Value};
use crate::ieee::{self, FloatOrder};
use crate::interpreter::{Interrupt, RuntimeError, eval_view};
use crate::equality::value_eq;
use crate::sameness::same_value;
use crate::semantics::{
    EvalV, Operands, binary_op, compare, get_property, operands, unary_op, zero_divisor,
};
use crate::text::{chars_of, string_from_chars};
use crate::token::{Token, TokenType};

verus! {

/// The numeric operands of an arithmetic operator.
enum Numbers {
    Ints(i32, i32),
    Floats(u32, u32),
    NotNumbers,
}

fn numbers(l: &Value, r: &Value) -> (n: Numbers)
    ensures
        match n {
            Numbers::Ints(a, b) => operands(l@, r@) == Operands::Ints(a, b),
            Numbers::Floats(a, b) => operands(l@, r@) == Operands::Floats(a, b),
            Numbers::NotNumbers => operands(l@, r@) is Strings || operands(l@, r@) is Other,
        },
{
    match (l, r) {
        (Value::Literal(Literal::Int(a)), Value::Literal(Literal::Int(b))) => Numbers::Ints(*a, *b),
        (Value::Literal(Literal::Float(a)), Value::Literal(Literal::Float(b))) => Numbers::Floats(*a, *b),
        (Value::Literal(Literal::Float(a)), Value::Literal(Literal::Int(b))) => Numbers::Floats(*a, ieee::from_i32(*b)),
        (Value::Literal(Literal::Int(a)), Value::Literal(Literal::Float(b))) => Numbers::Floats(ieee::from_i32(*a), *b),
        _ => Numbers::NotNumbers,
    }
}

fn error(op: &Token, msg: &str) -> (r: Result<Value, Interrupt<RuntimeError>>)
    ensures
        eval_view(r) == EvalV::Err(crate::semantics::rt_err(op@, msg@)),
{
    Err(Interrupt::Error(RuntimeError { token: op.clone(), message: msg.to_string() }))
}

fn int_result(i: i32) -> (r: Result<Value, Interrupt<RuntimeError>>)
    ensures
        eval_view(r) == EvalV::Ok(crate::semantics::int_value(i)),
{
    Ok(Value::Literal(Literal::Int(i)))
}

fn float_result(f: u32) -> (r: Result<Value, Interrupt<RuntimeError>>)
    ensures
        eval_view(r) == EvalV::Ok(crate::semantics::float_value(f)),
{
    Ok(Value::Literal(Literal::Float(f)))
}

fn bool_result(b: bool) -> (r: Result<Value, Interrupt<RuntimeError>>)
    ensures
        eval_view(r) == EvalV::Ok(crate::semantics::bool_value(b)),
{
    Ok(Value::Literal(Literal::Boolean(b)))
}

/// Whether a divisor is zero (the integer 0, or a float equal to zero).
fn is_zero_divisor(r: &Value) -> (z: bool)
    ensures
        z == zero_divisor(r@),
{
    match r {
        Value::Literal(Literal::Int(b)) => *b == 0,
        Value::Literal(Literal::Float(b)) => ieee::order(*b, 0) == FloatOrder::Equal,
        _ => false,
    }
}

/// The order of two numbers, if both are numbers.
fn compare_values(l: &Value, r: &Value) -> (o: Option<FloatOrder>)
    ensures
        o == compare(l@, r@),
{
    match numbers(l, r) {
        Numbers::Ints(a, b) => Some(
            if a < b {
                FloatOrder::Less
            } else if a == b {
                FloatOrder::Equal
            } else {
                FloatOrder::Greater
            },
        ),
        Numbers::Floats(a, b) => Some(ieee::order(a, b)),
        Numbers::NotNumbers => None,
    }
}

/// Whether two values are equal for `==`.
pub fn values_equal(a: &Value, b: &Value) -> (r: bool)
    ensures
        r == value_eq(a@, b@),
{
    same_value(a, b)
}

/// Concatenates two strings.
fn concat(a: &String, b: &String) -> (r: String)
    ensures
        r@ == a@ + b@,
{
    let mut cs = chars_of(a.as_str());
    let ds = chars_of(b.as_str());
    let mut i: usize = 0;
    while i < ds.len()
        invariant
            i <= ds.len(),
            cs@ == a@ + ds@.subrange(0, i as int),
        decreases ds.len() - i,
    {
        cs.push(ds[i]);
        i = i + 1;
        assert(cs@ =~= a@ + ds@.subrange(0, i as int));
    }
    assert(ds@.subrange(0, ds.len() as int) =~= b@);
    string_from_chars(cs.as_slice())
}

/// Applies a binary operator to two values.
pub fn binary(op: &Token, left: &Value, right: &Value) -> (r: Result<Value, Interrupt<RuntimeError>>)
    ensures
        eval_view(r) == binary_op(op@, left@, right@),
{
    match op.token_type {
        TokenType::Minus => match numbers(left, right) {
            Numbers::Ints(a, b) => int_result(a.wrapping_sub(b)),
            Numbers::Floats(a, b) => float_result(ieee::single_sub(a, b)),
            Numbers::NotNumbers => error(op, "Invalid subtraction"),
        },
        TokenType::Slash => match numbers(left, right) {
            Numbers::Ints(a, b) => if b == 0 {
                error(op, "Attempted to divide by zero")
            } else {
                int_result(
                    match a.checked_div(b) {
                        Some(q) => q,
                        None => i32::MIN,
                    },
                )
            },
            Numbers::Floats(a, b) => if is_zero_divisor(right) {
                error(op, "Attempted to divide by zero")
            } else {
                float_result(ieee::single_div(a, b))
            },
            Numbers::NotNumbers => error(op, "Invalid division"),
        },
        TokenType::Star => match numbers(left, right) {
            Numbers::Ints(a, b) => int_result(a.wrapping_mul(b)),
            Numbers::Floats(a, b) => float_result(ieee::single_mul(a, b)),
            Numbers::NotNumbers => error(op, "Invalid multiplication"),
        },
        TokenType::Plus => match numbers(left, right) {
            Numbers::Ints(a, b) => int_result(a.wrapping_add(b)),
            Numbers::Floats(a, b) => float_result(ieee::single_add(a, b)),
            Numbers::NotNumbers => match (left, right) {
                (Value::Literal(Literal::String(a)), Value::Literal(Literal::String(b))) => Ok(
                    Value::Literal(Literal::String(concat(a, b))),
                ),
                _ => error(op, "Invalid addition"),
            },
        },
        TokenType::Greater => match compare_values(left, right) {
            Some(o) => bool_result(o == FloatOrder::Greater),
            None => error(op, "Invalid comparison"),
        },
        TokenType::GreaterEqual => match compare_values(left, right) {
            Some(o) => bool_result(o == FloatOrder::Greater || o == FloatOrder::Equal),
            None => error(op, "Invalid comparison"),
        },
        TokenType::Less => match compare_values(left, right) {
            Some(o) => bool_result(o == FloatOrder::Less),
            None => error(op, "Invalid comparison"),
        },
        TokenType::LessEqual => match compare_values(left, right) {
            Some(o) => bool_result(o == FloatOrder::Less || o == FloatOrder::Equal),
            None => error(op, "Invalid comparison"),
        },
        TokenType::BangEqual => bool_result(!values_equal(left, right)),
        TokenType::EqualEqual => bool_result(values_equal(left, right)),
        _ => error(op, "Invalid binary operation"),
    }
}

/// Applies a unary operator to a value.
pub fn unary(op: &Token, v: &Value) -> (r: Result<Value, Interrupt<RuntimeError>>)
    ensures
        eval_view(r) == unary_op(op@, v@),
{
    match op.token_type {
        TokenType::Minus => match v {
            Value::Literal(Literal::Int(i)) => int_result(0i32.wrapping_sub(*i)),
            Value::Literal(Literal::Float(f)) => float_result(ieee::neg(*f)),
            _ => error(op, "Cannot negate a non-number"),
        },
        TokenType::Bang => match v {
            Value::Literal(Literal::False) | Value::Literal(Literal::Nil) => Ok(Value::Literal(Literal::True)),
            _ => Ok(Value::Literal(Literal::False)),
        },
        _ => error(op, "Invalid unary operator"),
    }
}

/// Reads a property of a value: only instances have properties.
pub fn property(v: &Value, name: &Token) -> (r: Result<Value, Interrupt<RuntimeError>>)
    ensures
        eval_view(r) == get_property(v@, name@),
{
    match v {
        Value::ClassInstance(c) => match c.class.get(name) {
            Some(x) => Ok(x),
            None => {
                let mut msg = chars_of("No property ");
                let n = chars_of(name.lexeme.as_str());
                let middle = chars_of(" on class ");
                let k = chars_of(c.class.name.as_str());
                let end = chars_of(".");
                msg.append(&mut n.clone());
                msg.append(&mut middle.clone());
                msg.append(&mut k.clone());
                msg.append(&mut end.clone());
                assert(msg@ =~= crate::semantics::no_property_message(name.lexeme@, c.class.name@));
                Err(Interrupt::Error(RuntimeError { token: name.clone(), message: string_from_chars(msg.as_slice()) }))
            },
        },
        _ => error(name, "Only instances have properties."),
    }
}

} // verus!
