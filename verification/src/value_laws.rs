//! What the operations on values mean: arithmetic, comparison, equality, truthiness
//! and printing, each stated over all inputs.
use vstd::prelude::*;

use crate::equality::value_eq;
use crate::expression::{LitV, ValueV, value_truthy};
use crate::ieee::{FloatOrder, SIGN_BIT, f32_order, is_nan_bits};
use crate::interpreter::{PieceV, literal_piece, value_piece};
use crate::scanner::keyword_type;
use crate::semantics::{EvalV, binary_op, bool_value};
use crate::token::{TokenType, TokenV};

verus! {

/// On two integers the comparison operators are the usual order of the integers:
/// `a > b` is true exactly when `a` is strictly greater than `b`, so `x > x` is false;
/// `<` is strict as well, and `>=`, `<=` include equality.
pub proof fn law_integer_comparison(op: TokenV, a: i32, b: i32)
    ensures
        op.token_type == TokenType::Greater ==> binary_op(
            op,
            ValueV::Literal(LitV::Int(a)),
            ValueV::Literal(LitV::Int(b)),
        ) == EvalV::Ok(bool_value(a > b)),
        op.token_type == TokenType::GreaterEqual ==> binary_op(
            op,
            ValueV::Literal(LitV::Int(a)),
            ValueV::Literal(LitV::Int(b)),
        ) == EvalV::Ok(bool_value(a >= b)),
        op.token_type == TokenType::Less ==> binary_op(
            op,
            ValueV::Literal(LitV::Int(a)),
            ValueV::Literal(LitV::Int(b)),
        ) == EvalV::Ok(bool_value(a < b)),
        op.token_type == TokenType::LessEqual ==> binary_op(
            op,
            ValueV::Literal(LitV::Int(a)),
            ValueV::Literal(LitV::Int(b)),
        ) == EvalV::Ok(bool_value(a <= b)),
{
}

/// Whether a value is a number (an integer or a float).
pub open spec fn is_number(v: ValueV) -> bool {
    v matches ValueV::Literal(l) && (l is Int || l is Float)
}

/// `>` is the converse of `<`, and `>=` of `<=`: on two numbers, `l > r` gives what
/// `r < l` gives, and `l >= r` what `r <= l` gives.
pub proof fn law_comparison_converse(gt: TokenV, lt: TokenV, l: ValueV, r: ValueV)
    requires
        is_number(l),
        is_number(r),
    ensures
        gt.token_type == TokenType::Greater && lt.token_type == TokenType::Less ==> binary_op(gt, l, r)
            == binary_op(lt, r, l),
        gt.token_type == TokenType::GreaterEqual && lt.token_type == TokenType::LessEqual ==> binary_op(gt, l, r)
            == binary_op(lt, r, l),
{
    match (l, r) {
        (ValueV::Literal(LitV::Float(a)), ValueV::Literal(LitV::Float(b))) => law_float_order_converse(a, b),
        (ValueV::Literal(LitV::Float(a)), ValueV::Literal(LitV::Int(b))) => law_float_order_converse(
            a,
            crate::ieee::f32_from_i32(b),
        ),
        (ValueV::Literal(LitV::Int(a)), ValueV::Literal(LitV::Float(b))) => law_float_order_converse(
            crate::ieee::f32_from_i32(a),
            b,
        ),
        _ => {},
    }
}

/// Comparing two floats the other way round swaps `Less` and `Greater`; `Equal` and
/// `Unordered` stay. No float is greater or less than itself.
pub proof fn law_float_order_converse(a: u32, b: u32)
    ensures
        f32_order(a, b) == FloatOrder::Greater <==> f32_order(b, a) == FloatOrder::Less,
        f32_order(a, b) == FloatOrder::Equal <==> f32_order(b, a) == FloatOrder::Equal,
        f32_order(a, b) == FloatOrder::Unordered <==> f32_order(b, a) == FloatOrder::Unordered,
        f32_order(a, a) != FloatOrder::Greater,
        f32_order(a, a) != FloatOrder::Less,
{
}

/// The two zeros are equal, a NaN is unordered with everything, and two floats that are
/// not NaN compare as their values: among non-negative floats the larger bit pattern is
/// the larger number, among negative floats the larger bit pattern is the smaller one,
/// and a negative float that is not zero lies below every non-negative float.
pub proof fn law_float_order(a: u32, b: u32)
    ensures
        f32_order(0, SIGN_BIT) == FloatOrder::Equal,
        is_nan_bits(a) ==> f32_order(a, b) == FloatOrder::Unordered && f32_order(b, a) == FloatOrder::Unordered,
        !is_nan_bits(a) && !is_nan_bits(b) && a < SIGN_BIT && b < SIGN_BIT ==> {
            &&& (f32_order(a, b) == FloatOrder::Less <==> a < b)
            &&& (f32_order(a, b) == FloatOrder::Equal <==> a == b)
            &&& (f32_order(a, b) == FloatOrder::Greater <==> a > b)
        },
        !is_nan_bits(a) && !is_nan_bits(b) && a > SIGN_BIT && b > SIGN_BIT ==> {
            &&& (f32_order(a, b) == FloatOrder::Less <==> a > b)
            &&& (f32_order(a, b) == FloatOrder::Equal <==> a == b)
            &&& (f32_order(a, b) == FloatOrder::Greater <==> a < b)
        },
        !is_nan_bits(a) && !is_nan_bits(b) && a > SIGN_BIT && b < SIGN_BIT ==> f32_order(a, b) == FloatOrder::Less,
{
    assert(0u32 & 0x7FFF_FFFFu32 == 0u32) by (bit_vector);
    assert(0u32 & 0x8000_0000u32 == 0u32) by (bit_vector);
    assert(0x8000_0000u32 & 0x7FFF_FFFFu32 == 0u32) by (bit_vector);
    assert(0x8000_0000u32 & 0x8000_0000u32 != 0u32) by (bit_vector);
    assert(a < 0x8000_0000u32 ==> (a & 0x7FFF_FFFFu32) == a && (a & 0x8000_0000u32) == 0u32) by (bit_vector);
    assert(b < 0x8000_0000u32 ==> (b & 0x7FFF_FFFFu32) == b && (b & 0x8000_0000u32) == 0u32) by (bit_vector);
    assert(a >= 0x8000_0000u32 ==> (a & 0x7FFF_FFFFu32) == a - 0x8000_0000u32 && (a & 0x8000_0000u32) != 0u32)
        by (bit_vector);
    assert(b >= 0x8000_0000u32 ==> (b & 0x7FFF_FFFFu32) == b - 0x8000_0000u32 && (b & 0x8000_0000u32) != 0u32)
        by (bit_vector);
    assert(!is_nan_bits(0u32)) by {
        assert((0u32 & 0x7F80_0000u32) == 0u32) by (bit_vector);
    }
    assert(!is_nan_bits(0x8000_0000u32)) by {
        assert((0x8000_0000u32 & 0x7F80_0000u32) == 0u32) by (bit_vector);
    }
}

/// Truthiness: a value is falsy exactly when it is the literal `false`, `nil` or the
/// boolean `false`; every number, string, other boolean, callable and instance is
/// truthy.
pub proof fn law_truthiness(v: ValueV)
    ensures
        !value_truthy(v) <==> (v == ValueV::Literal(LitV::False) || v == ValueV::Literal(LitV::Nil) || v
            == ValueV::Literal(LitV::Boolean(false))),
{
}

/// On two integers, `==` holds exactly when they are the same integer.
pub proof fn law_integer_equality(x: i32, y: i32)
    ensures
        value_eq(ValueV::Literal(LitV::Int(x)), ValueV::Literal(LitV::Int(y))) <==> x == y,
{
    reveal_with_fuel(value_eq, 1);
}

/// `==` on literal values is symmetric: `a == b` exactly when `b == a`. Strings,
/// integers and booleans equal themselves.
pub proof fn law_literal_equality_symmetric(a: LitV, b: LitV)
    ensures
        value_eq(ValueV::Literal(a), ValueV::Literal(b)) == value_eq(ValueV::Literal(b), ValueV::Literal(a)),
        !(a is Float) ==> value_eq(ValueV::Literal(a), ValueV::Literal(a)),
{
    if let (LitV::Float(x), LitV::Float(y)) = (a, b) {
        law_float_order_converse(x, y);
    }
}

/// The text of a printed piece, if it is text.
pub open spec fn piece_text(p: PieceV) -> Seq<char> {
    match p {
        PieceV::Text(t) => t,
        PieceV::Float(_) => Seq::empty(),
    }
}

/// `true`, `false` and `nil` print as their own source spelling: scanning the printed
/// text gives back the keyword that stands for the literal. A boolean prints as the
/// keyword of its truth value, the same text as the literal `true` or `false`.
pub proof fn law_keyword_literals_print_as_spelled(b: bool)
    ensures
        keyword_type(piece_text(literal_piece(LitV::True))) == Some(TokenType::True),
        keyword_type(piece_text(literal_piece(LitV::False))) == Some(TokenType::False),
        keyword_type(piece_text(literal_piece(LitV::Nil))) == Some(TokenType::Nil),
        literal_piece(LitV::Boolean(b)) == literal_piece(if b { LitV::True } else { LitV::False }),
        value_piece(ValueV::Literal(LitV::Boolean(b))) == literal_piece(LitV::Boolean(b)),
{
    reveal_strlit("true");
    reveal_strlit("false");
    reveal_strlit("nil");
    reveal_strlit("and");
    reveal_strlit("class");
    reveal_strlit("else");
    reveal_strlit("for");
    reveal_strlit("fun");
    reveal_strlit("if");
    reveal_strlit("or");
    reveal_strlit("print");
    reveal_strlit("return");
    reveal_strlit("super");
    reveal_strlit("this");
    reveal_strlit("var");
    reveal_strlit("while");
    assert("true"@ != "else"@) by {
        assert("true"@[0] != "else"@[0]);
    }
    assert("true"@ != "this"@) by {
        assert("true"@[1] != "this"@[1]);
    }
    assert("false"@ != "class"@) by {
        assert("false"@[0] != "class"@[0]);
    }
    assert("false"@ != "print"@) by {
        assert("false"@[0] != "print"@[0]);
    }
    assert("false"@ != "super"@) by {
        assert("false"@[0] != "super"@[0]);
    }
    assert("false"@ != "while"@) by {
        assert("false"@[0] != "while"@[0]);
    }
    assert("nil"@ != "and"@) by {
        assert("nil"@[0] != "and"@[0]);
    }
    assert("nil"@ != "for"@) by {
        assert("nil"@[0] != "for"@[0]);
    }
    assert("nil"@ != "fun"@) by {
        assert("nil"@[0] != "fun"@[0]);
    }
    assert("nil"@ != "var"@) by {
        assert("nil"@[0] != "var"@[0]);
    }
    assert(piece_text(literal_piece(LitV::True)) == "true"@);
    assert(keyword_type("true"@) == Some(TokenType::True));
    assert(piece_text(literal_piece(LitV::False)) == "false"@);
    assert(keyword_type("false"@) == Some(TokenType::False));
    assert(piece_text(literal_piece(LitV::Nil)) == "nil"@);
    assert(keyword_type("nil"@) == Some(TokenType::Nil));
}

/// On two integers `+`, `-` and `*` are the integer operations, wrapping around (by a
/// multiple of 2^32) only when the exact result does not fit in 32 bits.
pub proof fn law_integer_arithmetic(op: TokenV, a: i32, b: i32)
    ensures
        op.token_type == TokenType::Plus ==> (binary_op(op, ValueV::Literal(LitV::Int(a)), ValueV::Literal(LitV::Int(b)))
            matches EvalV::Ok(ValueV::Literal(LitV::Int(c))) && (c == a + b || c == a + b - 0x1_0000_0000 || c == a
            + b + 0x1_0000_0000) && (i32::MIN <= a + b <= i32::MAX ==> c == a + b)),
        op.token_type == TokenType::Minus ==> (binary_op(op, ValueV::Literal(LitV::Int(a)), ValueV::Literal(LitV::Int(b)))
            matches EvalV::Ok(ValueV::Literal(LitV::Int(c))) && (c == a - b || c == a - b - 0x1_0000_0000 || c == a
            - b + 0x1_0000_0000) && (i32::MIN <= a - b <= i32::MAX ==> c == a - b)),
        op.token_type == TokenType::Star ==> (binary_op(op, ValueV::Literal(LitV::Int(a)), ValueV::Literal(LitV::Int(b)))
            matches EvalV::Ok(ValueV::Literal(LitV::Int(c))) && (i32::MIN <= a * b <= i32::MAX ==> c == a * b)),
{
}

/// The absolute value of an integer.
pub open spec fn abs(x: int) -> nat {
    if x < 0 {
        (-x) as nat
    } else {
        x as nat
    }
}

/// Dividing integers rounds toward zero: the quotient's size is the floor of the sizes'
/// quotient, and it is positive exactly when the operands have the same sign. Dividing
/// by the integer zero is the divide-by-zero error.
pub proof fn law_integer_division(op: TokenV, a: i32, b: i32)
    requires
        op.token_type == TokenType::Slash,
        !(a == i32::MIN && b == -1),
    ensures
        b == 0 ==> binary_op(op, ValueV::Literal(LitV::Int(a)), ValueV::Literal(LitV::Int(b))) == EvalV::Err(
            crate::semantics::rt_err(op, "Attempted to divide by zero"@),
        ),
        b != 0 ==> (binary_op(op, ValueV::Literal(LitV::Int(a)), ValueV::Literal(LitV::Int(b))) matches EvalV::Ok(
            ValueV::Literal(LitV::Int(q)),
        ) && abs(q as int) == abs(a as int) / abs(b as int) && (q > 0 ==> ((a > 0) == (b > 0))) && (q < 0 ==> ((a
            > 0) != (b > 0)))),
{
    if b != 0 {
        let x = a as int;
        let d = b as int;
        let n = abs(x);
        let m = abs(d);
        assert(0 <= n / m <= n) by (nonlinear_arith)
            requires
                n >= 0,
                m > 0,
        ;
        assert(n / m == 0 ==> n < m) by (nonlinear_arith)
            requires
                n >= 0,
                m > 0,
        ;
        assert(m >= 2 && n > 0 ==> n / m < n) by (nonlinear_arith)
            requires
                n >= 0,
                m > 0,
        ;
        let q = crate::semantics::int_div(a, b);
        if x == 0 {
            assert(q == 0);
        } else if x > 0 && d > 0 {
            assert(q == n / m);
        } else if x < 0 && d < 0 {
            assert((x * -1) / (d * -1) == n / m);
            assert(q == n / m);
        } else if x < 0 {
            assert((x * -1) / d == n / m);
            assert(q == -(n / m));
        } else {
            assert(x / (d * -1) == n / m);
            assert(q == -(n / m));
        }
    }
}

/// On two strings `+` concatenates: the result is the left text followed by the right.
pub proof fn law_string_concatenation(op: TokenV, a: Seq<char>, b: Seq<char>)
    requires
        op.token_type == TokenType::Plus,
    ensures
        binary_op(op, ValueV::Literal(LitV::Str(a)), ValueV::Literal(LitV::Str(b))) matches EvalV::Ok(
            ValueV::Literal(LitV::Str(c)),
        ) && c.len() == a.len() + b.len() && c.subrange(0, a.len() as int) == a && c.subrange(
            a.len() as int,
            c.len() as int,
        ) == b,
{
    assert((a + b).subrange(0, a.len() as int) =~= a);
    assert((a + b).subrange(a.len() as int, (a + b).len() as int) =~= b);
}

/// Negating an integer gives its opposite (wrapping only at the smallest integer), and
/// negating twice gives the number back, for integers and floats alike; a negated float
/// lies at the mirror place on the number line.
pub proof fn law_negation(op: TokenV, i: i32, f: u32)
    requires
        op.token_type == TokenType::Minus,
    ensures
        i != i32::MIN ==> crate::semantics::unary_op(op, ValueV::Literal(LitV::Int(i))) == EvalV::Ok(
            ValueV::Literal(LitV::Int((-i) as i32)),
        ),
        crate::semantics::unary_op(op, ValueV::Literal(LitV::Int(i))) matches EvalV::Ok(x)
            && crate::semantics::unary_op(op, x) == EvalV::Ok(ValueV::Literal(LitV::Int(i))),
        crate::semantics::unary_op(op, ValueV::Literal(LitV::Float(f))) matches EvalV::Ok(x)
            && crate::semantics::unary_op(op, x) == EvalV::Ok(ValueV::Literal(LitV::Float(f))),
        crate::semantics::unary_op(op, ValueV::Literal(LitV::Float(f))) matches EvalV::Ok(
            ValueV::Literal(LitV::Float(g)),
        ) && is_nan_bits(g) == is_nan_bits(f) && crate::ieee::order_key(g) == -crate::ieee::order_key(f),
{
    assert((f ^ 0x8000_0000u32) ^ 0x8000_0000u32 == f) by (bit_vector);
    let g = f ^ 0x8000_0000u32;
    assert((g & 0x7FFF_FFFFu32) == (f & 0x7FFF_FFFFu32)) by (bit_vector)
        requires
            g == f ^ 0x8000_0000u32,
    ;
    assert(((g & 0x8000_0000u32) != 0) == ((f & 0x8000_0000u32) == 0)) by (bit_vector)
        requires
            g == f ^ 0x8000_0000u32,
    ;
    assert((g & 0x7F80_0000u32) == (f & 0x7F80_0000u32) && (g & 0x007F_FFFFu32) == (f & 0x007F_FFFFu32))
        by (bit_vector)
        requires
            g == f ^ 0x8000_0000u32,
    ;
}

/// `==` holds only between values of the same kind: an integer never equals a float (not
/// even `1` and `1.0`), and the literal `true` never equals the boolean `true`. Two
/// strings are equal exactly when they hold the same text.
pub proof fn law_equality_kinds(a: LitV, b: LitV, x: Seq<char>, y: Seq<char>)
    ensures
        value_eq(ValueV::Literal(a), ValueV::Literal(b)) ==> (a is Int && b is Int) || (a is Float && b is Float) || (
        a is Str && b is Str) || (a is Boolean && b is Boolean) || (a is True && b is True) || (a is False && b is False)
            || (a is Nil && b is Nil),
        value_eq(ValueV::Literal(LitV::Str(x)), ValueV::Literal(LitV::Str(y))) <==> x == y,
{
}

/// `!` gives a literal boolean, never a truthy value for a truthy operand: `!v` is
/// falsy whenever `v` is truthy, and `!false` and `!nil` are true.
pub proof fn law_not(op: TokenV, v: ValueV)
    requires
        op.token_type == TokenType::Bang,
    ensures
        crate::semantics::unary_op(op, v) == EvalV::Ok(ValueV::Literal(LitV::True)) || crate::semantics::unary_op(op, v)
            == EvalV::Ok(ValueV::Literal(LitV::False)),
        value_truthy(v) ==> (crate::semantics::unary_op(op, v) matches EvalV::Ok(r) && !value_truthy(r)),
        (v == ValueV::Literal(LitV::False) || v == ValueV::Literal(LitV::Nil)) ==> crate::semantics::unary_op(op, v)
            == EvalV::Ok(ValueV::Literal(LitV::True)),
{
}

/// A string prints as its own text, whatever it holds.
pub proof fn law_strings_print_as_themselves(s: Seq<char>)
    ensures
        value_piece(ValueV::Literal(LitV::Str(s))) == PieceV::Text(s),
{
}

/// Two literals that are not floats are equal under `==` exactly when they are the same
/// literal: the same kind with the same contents.
pub proof fn law_literal_equality(a: LitV, b: LitV)
    requires
        !(a is Float) || !(b is Float),
    ensures
        value_eq(ValueV::Literal(a), ValueV::Literal(b)) <==> a == b,
{
}

/// Floats are equal under `==` as numbers: a NaN equals nothing, not even itself; the
/// two zeros are equal; any other float equals itself, and two non-negative (or two
/// negative) floats that are not NaN are equal exactly when their bits are.
pub proof fn law_float_equality(a: u32, b: u32)
    ensures
        is_nan_bits(a) ==> !value_eq(ValueV::Literal(LitV::Float(a)), ValueV::Literal(LitV::Float(b))),
        value_eq(ValueV::Literal(LitV::Float(0)), ValueV::Literal(LitV::Float(SIGN_BIT))),
        !is_nan_bits(a) ==> value_eq(ValueV::Literal(LitV::Float(a)), ValueV::Literal(LitV::Float(a))),
        !is_nan_bits(a) && !is_nan_bits(b) && ((a < SIGN_BIT && b < SIGN_BIT) || (a > SIGN_BIT && b > SIGN_BIT)) ==> (
        value_eq(ValueV::Literal(LitV::Float(a)), ValueV::Literal(LitV::Float(b))) <==> a == b),
{
    law_float_order(a, b);
    law_float_order(a, a);
}

/// On two floats that are not NaN and have the same sign, `<` and `>` follow their
/// place on the number line as the bits give it; a NaN makes every comparison false.
pub proof fn law_float_comparison(op: TokenV, a: u32, b: u32)
    ensures
        !is_nan_bits(a) && !is_nan_bits(b) && a < SIGN_BIT && b < SIGN_BIT ==> {
            &&& op.token_type == TokenType::Less ==> binary_op(
                op,
                ValueV::Literal(LitV::Float(a)),
                ValueV::Literal(LitV::Float(b)),
            ) == EvalV::Ok(bool_value(a < b))
            &&& op.token_type == TokenType::Greater ==> binary_op(
                op,
                ValueV::Literal(LitV::Float(a)),
                ValueV::Literal(LitV::Float(b)),
            ) == EvalV::Ok(bool_value(a > b))
        },
        !is_nan_bits(a) && !is_nan_bits(b) && a > SIGN_BIT && b > SIGN_BIT ==> {
            &&& op.token_type == TokenType::Less ==> binary_op(
                op,
                ValueV::Literal(LitV::Float(a)),
                ValueV::Literal(LitV::Float(b)),
            ) == EvalV::Ok(bool_value(a > b))
            &&& op.token_type == TokenType::Greater ==> binary_op(
                op,
                ValueV::Literal(LitV::Float(a)),
                ValueV::Literal(LitV::Float(b)),
            ) == EvalV::Ok(bool_value(a < b))
        },
        is_nan_bits(a) && (op.token_type == TokenType::Less || op.token_type == TokenType::LessEqual || op.token_type
            == TokenType::Greater || op.token_type == TokenType::GreaterEqual) ==> binary_op(
            op,
            ValueV::Literal(LitV::Float(a)),
            ValueV::Literal(LitV::Float(b)),
        ) == EvalV::Ok(bool_value(false)),
{
    law_float_order(a, b);
}

} // verus!
