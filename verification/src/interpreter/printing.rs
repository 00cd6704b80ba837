//! Printing expressions in a parenthesized prefix form, e.g. `(* (- 1) (group 2))`.
use vstd::prelude::*;

use crate::expression::{Callable, CallableV, Expr, ExprV, LitV, Literal, Value, ValueV};
use crate::semantics::expr_size;
use crate::text::{chars_of, string_from_chars};

verus! {

/// A piece of printed text: plain text, or a single-precision float (its bit pattern)
/// for the caller to write out in its shortest decimal form.
#[derive(Debug, PartialEq)]
pub enum Piece {
    Text(String),
    Float(u32),
}

/// The mathematical view of a piece.
pub enum PieceV {
    Text(Seq<char>),
    Float(u32),
}

impl View for Piece {
    type V = PieceV;

    open spec fn view(&self) -> PieceV {
        match self {
            Piece::Text(s) => PieceV::Text(s@),
            Piece::Float(f) => PieceV::Float(*f),
        }
    }
}

/// The views of a sequence of pieces.
pub open spec fn pieces_view(s: Seq<Piece>) -> Seq<PieceV> {
    s.map_values(|p: Piece| p@)
}

/// The decimal digit for `d` (below ten).
pub open spec fn digit_char(d: nat) -> char {
    if d == 0 {
        '0'
    } else if d == 1 {
        '1'
    } else if d == 2 {
        '2'
    } else if d == 3 {
        '3'
    } else if d == 4 {
        '4'
    } else if d == 5 {
        '5'
    } else if d == 6 {
        '6'
    } else if d == 7 {
        '7'
    } else if d == 8 {
        '8'
    } else {
        '9'
    }
}

/// The decimal digits of a natural number, most significant first.
pub open spec fn nat_text(n: nat) -> Seq<char>
    decreases n,
{
    if n < 10 {
        seq![digit_char(n)]
    } else {
        nat_text(n / 10).push(digit_char(n % 10))
    }
}

/// The decimal form of an integer, with a leading `-` when it is negative.
pub open spec fn int_text(i: i32) -> Seq<char> {
    if i < 0 {
        seq!['-'] + nat_text((-i) as nat)
    } else {
        nat_text(i as nat)
    }
}

/// How a literal prints.
pub open spec fn literal_piece(l: LitV) -> PieceV {
    match l {
        LitV::Str(s) => PieceV::Text(s),
        LitV::Int(i) => PieceV::Text(int_text(i)),
        LitV::Float(f) => PieceV::Float(f),
        LitV::Boolean(b) => PieceV::Text(
            if b {
                "true"@
            } else {
                "false"@
            },
        ),
        LitV::True => PieceV::Text("true"@),
        LitV::False => PieceV::Text("false"@),
        LitV::Nil => PieceV::Text("nil"@),
    }
}

/// How a value prints: a literal as itself, an instance as `<instance of class NAME>`,
/// a function as `<function>`, a native function as `<native function>`, a class as
/// its name.
pub open spec fn value_piece(v: ValueV) -> PieceV {
    match v {
        ValueV::Literal(l) => literal_piece(l),
        ValueV::Instance(c) => PieceV::Text("<instance of class "@ + c.name + ">"@),
        ValueV::Callable(CallableV::Function { .. }) => PieceV::Text("<function>"@),
        ValueV::Callable(CallableV::Native { .. }) => PieceV::Text("<native function>"@),
        ValueV::Callable(CallableV::Class(c)) => PieceV::Text(c.name),
    }
}

/// Whether an expression can be printed: calls and property reads have no printed
/// form.
pub open spec fn printable(e: ExprV) -> bool
    decreases e,
{
    match e {
        ExprV::Binary { left, operator, right } => printable(*left) && printable(*right),
        ExprV::Unary { operator, right } => printable(*right),
        ExprV::Logical { left, operator, right } => printable(*left) && printable(*right),
        ExprV::Grouping(g) => printable(*g),
        ExprV::Literal(_) => true,
        ExprV::Variable { .. } => true,
        ExprV::Assignment { id, name, value } => printable(*value),
        ExprV::Call { .. } => false,
        ExprV::Get { .. } => false,
    }
}

/// `(lexeme e1 e2 ...)`: the lexeme and each expression after a space, in parentheses.
pub open spec fn parenthesized(lexeme: Seq<char>, parts: Seq<Seq<PieceV>>) -> Seq<PieceV>
    decreases parts.len(),
{
    if parts.len() == 0 {
        seq![PieceV::Text(seq!['('] + lexeme)]
    } else {
        parenthesized(lexeme, parts.subrange(0, parts.len() - 1)) + seq![PieceV::Text(seq![' '])] + parts[parts.len()
            - 1]
    }
}

/// The printed form of an expression, as pieces.
pub open spec fn printed(e: ExprV) -> Seq<PieceV>
    decreases e,
{
    match e {
        ExprV::Binary { left, operator, right } => parenthesized(operator.lexeme, seq![printed(*left), printed(*right)])
            + seq![PieceV::Text(seq![')'])],
        ExprV::Unary { operator, right } => parenthesized(operator.lexeme, seq![printed(*right)]) + seq![
            PieceV::Text(seq![')']),
        ],
        ExprV::Logical { left, operator, right } => parenthesized(operator.lexeme, seq![printed(*left), printed(*right)])
            + seq![PieceV::Text(seq![')'])],
        ExprV::Grouping(g) => parenthesized("group"@, seq![printed(*g)]) + seq![PieceV::Text(seq![')'])],
        ExprV::Literal(l) => seq![literal_piece(l)],
        ExprV::Variable { id, name } => seq![PieceV::Text(name.lexeme)],
        ExprV::Assignment { id, name, value } => seq![PieceV::Text(name.lexeme + " = "@)] + printed(*value),
        _ => Seq::empty(),
    }
}

/// The total size of a list of expressions.
pub open spec fn sizes(s: Seq<ExprV>) -> nat
    decreases s.len(),
{
    if s.len() == 0 {
        0
    } else {
        sizes(s.subrange(0, s.len() - 1)) + expr_size(s[s.len() - 1])
    }
}

proof fn lemma_sizes(s: Seq<ExprV>, i: int)
    requires
        0 <= i < s.len(),
    ensures
        expr_size(s[i]) <= sizes(s),
    decreases s.len(),
{
    if i < s.len() - 1 {
        lemma_sizes(s.subrange(0, s.len() - 1), i);
    }
}

fn digit(d: u64) -> (c: char)
    requires
        d < 10,
    ensures
        c == digit_char(d as nat),
{
    if d == 0 {
        '0'
    } else if d == 1 {
        '1'
    } else if d == 2 {
        '2'
    } else if d == 3 {
        '3'
    } else if d == 4 {
        '4'
    } else if d == 5 {
        '5'
    } else if d == 6 {
        '6'
    } else if d == 7 {
        '7'
    } else if d == 8 {
        '8'
    } else {
        '9'
    }
}

fn nat_digits(n: u64) -> (r: Vec<char>)
    ensures
        r@ == nat_text(n as nat),
    decreases n,
{
    if n < 10 {
        let mut v = Vec::new();
        v.push(digit(n));
        assert(v@ =~= seq![digit_char(n as nat)]);
        v
    } else {
        let mut v = nat_digits(n / 10);
        v.push(digit(n % 10));
        v
    }
}

/// The decimal form of an integer.
fn int_digits(i: i32) -> (r: Vec<char>)
    ensures
        r@ == int_text(i),
{
    if i < 0 {
        let magnitude: u64 = (0i64 - (i as i64)) as u64;
        let mut v = Vec::new();
        v.push('-');
        let mut d = nat_digits(magnitude);
        v.append(&mut d);
        assert(v@ =~= seq!['-'] + nat_text((-i) as nat));
        v
    } else {
        nat_digits(i as u64)
    }
}

fn text(s: &str) -> (p: Piece)
    ensures
        p@ == PieceV::Text(s@),
{
    Piece::Text(s.to_string())
}

fn char_text(c: char) -> (p: Piece)
    ensures
        p@ == PieceV::Text(seq![c]),
{
    let mut v = Vec::new();
    v.push(c);
    assert(v@ =~= seq![c]);
    Piece::Text(string_from_chars(v.as_slice()))
}

fn literal_text(l: &Literal) -> (p: Piece)
    ensures
        p@ == literal_piece(l@),
{
    match l {
        Literal::String(s) => Piece::Text(s.clone()),
        Literal::Int(i) => Piece::Text(string_from_chars(int_digits(*i).as_slice())),
        Literal::Float(f) => Piece::Float(*f),
        Literal::Boolean(b) => if *b {
            text("true")
        } else {
            text("false")
        },
        Literal::True => text("true"),
        Literal::False => text("false"),
        Literal::Nil => text("nil"),
    }
}

impl Literal {
    /// How the literal prints.
    pub fn to_piece(&self) -> (p: Piece)
        ensures
            p@ == literal_piece(self@),
    {
        literal_text(self)
    }
}

impl Value {
    /// How the value prints.
    pub fn to_piece(&self) -> (p: Piece)
        ensures
            p@ == value_piece(self@),
    {
        match self {
            Value::Literal(l) => literal_text(l),
            Value::ClassInstance(c) => {
                let mut t = chars_of("<instance of class ");
                let mut name = chars_of(c.class.name.as_str());
                let mut close = chars_of(">");
                t.append(&mut name);
                t.append(&mut close);
                Piece::Text(string_from_chars(t.as_slice()))
            },
            Value::Callable(c) => match &**c {
                Callable::Function(_) => text("<function>"),
                Callable::Native(_) => text("<native function>"),
                Callable::Class(k) => Piece::Text(k.name.clone()),
            },
        }
    }
}

/// Appends pieces to a list of pieces.
fn append_pieces(v: &mut Vec<Piece>, mut more: Vec<Piece>)
    ensures
        pieces_view(final(v)@) == pieces_view(old(v)@) + pieces_view(more@),
{
    let ghost a = old(v)@;
    let ghost b = more@;
    v.append(&mut more);
    assert(pieces_view(v@) =~= pieces_view(a) + pieces_view(b));
}

/// The printed form of an expression: operators and groupings in parentheses in prefix
/// order, literals and variables as they are, assignments as `name = value`.
pub fn print(expr: &Expr) -> (r: Vec<Piece>)
    requires
        printable(expr@),
    ensures
        pieces_view(r@) == printed(expr@),
    decreases expr_size(expr@), 1nat,
{
    proof {
        reveal_with_fuel(sizes, 3);
    }
    match expr {
        Expr::Binary(b) => {
            let parts = [&*b.left, &*b.right];
            let mut r = parenthesize(b.operator.lexeme.as_str(), &parts);
            let ghost before = r@;
            r.push(char_text(')'));
            proof {
                assert(parts@.map_values(|e: &Expr| printed(e@)) =~= seq![printed(b.left@), printed(b.right@)]);
                assert(pieces_view(r@) =~= pieces_view(before) + seq![PieceV::Text(seq![')'])]);
            }
            r
        },
        Expr::Unary(u) => {
            let parts = [&*u.right];
            let mut r = parenthesize(u.operator.lexeme.as_str(), &parts);
            let ghost before = r@;
            r.push(char_text(')'));
            proof {
                assert(parts@.map_values(|e: &Expr| printed(e@)) =~= seq![printed(u.right@)]);
                assert(pieces_view(r@) =~= pieces_view(before) + seq![PieceV::Text(seq![')'])]);
            }
            r
        },
        Expr::Logical(l) => {
            let parts = [&*l.left, &*l.right];
            let mut r = parenthesize(l.operator.lexeme.as_str(), &parts);
            let ghost before = r@;
            r.push(char_text(')'));
            proof {
                assert(parts@.map_values(|e: &Expr| printed(e@)) =~= seq![printed(l.left@), printed(l.right@)]);
                assert(pieces_view(r@) =~= pieces_view(before) + seq![PieceV::Text(seq![')'])]);
            }
            r
        },
        Expr::Grouping(g) => {
            let parts = [&*g.expression];
            let mut r = parenthesize("group", &parts);
            let ghost before = r@;
            r.push(char_text(')'));
            proof {
                assert(parts@.map_values(|e: &Expr| printed(e@)) =~= seq![printed(g.expression@)]);
                assert(pieces_view(r@) =~= pieces_view(before) + seq![PieceV::Text(seq![')'])]);
            }
            r
        },
        Expr::Literal(l) => {
            let mut r = Vec::new();
            r.push(literal_text(l));
            assert(pieces_view(r@) =~= seq![literal_piece(l@)]);
            r
        },
        Expr::Variable(v) => {
            let mut r = Vec::new();
            r.push(Piece::Text(v.name.lexeme.clone()));
            assert(pieces_view(r@) =~= seq![PieceV::Text(v.name.lexeme@)]);
            r
        },
        Expr::Assignment(a) => {
            let mut name = chars_of(a.name.lexeme.as_str());
            let mut eq = chars_of(" = ");
            name.append(&mut eq);
            let mut r = Vec::new();
            r.push(Piece::Text(string_from_chars(name.as_slice())));
            let rest = print(&a.value);
            append_pieces(&mut r, rest);
            r
        },
        _ => Vec::new(),
    }
}

/// `(lexeme e1 e2 ...`: the opening parenthesis, the lexeme and each expression after a
/// space; the caller closes the parenthesis.
fn parenthesize(lexeme: &str, exprs: &[&Expr]) -> (r: Vec<Piece>)
    requires
        forall|i: int| 0 <= i < exprs@.len() ==> printable(exprs@[i]@),
    ensures
        pieces_view(r@) == parenthesized(lexeme@, exprs@.map_values(|e: &Expr| printed(e@))),
    decreases 1 + sizes(exprs@.map_values(|e: &Expr| e@)), 0nat,
{
    proof {
        reveal_strlit("(");
    }
    let ghost parts = exprs@.map_values(|e: &Expr| printed(e@));
    let mut open = chars_of("(");
    let mut lex = chars_of(lexeme);
    open.append(&mut lex);
    assert(open@ =~= seq!['('] + lexeme@);
    let mut r = Vec::new();
    r.push(Piece::Text(string_from_chars(open.as_slice())));
    assert(r@.len() == 1);
    assert(pieces_view(r@) =~= parenthesized(lexeme@, parts.subrange(0, 0)));
    let mut i: usize = 0;
    while i < exprs.len()
        invariant
            i <= exprs.len(),
            parts == exprs@.map_values(|e: &Expr| printed(e@)),
            forall|k: int| 0 <= k < exprs@.len() ==> printable(exprs@[k]@),
            pieces_view(r@) == parenthesized(lexeme@, parts.subrange(0, i as int)),
        decreases exprs.len() - i,
    {
        r.push(char_text(' '));
        proof {
            lemma_sizes(exprs@.map_values(|e: &Expr| e@), i as int);
        }
        let printed_part = print(exprs[i]);
        append_pieces(&mut r, printed_part);
        i = i + 1;
        proof {
            assert(parts.subrange(0, i as int).subrange(0, i - 1) =~= parts.subrange(0, i - 1));
            assert(pieces_view(r@) =~= parenthesized(lexeme@, parts.subrange(0, i as int)));
        }
    }
    assert(parts.subrange(0, exprs.len() as int) =~= parts);
    r
}

} // verus!
