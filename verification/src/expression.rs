use std::rc::Rc;

use vstd::prelude::*;

use crate::statement::{Stmt, StmtV, stmts_view};
use crate::token::{Token, TokenV, tokens_view};

verus! {

/// Whether a value counts as true in a condition.
pub trait IsTruthy {
    spec fn truthy(&self) -> bool;

    fn is_truthy(&self) -> (r: bool)
        ensures
            r == self.truthy(),
    ;
}

/// A literal value: a string, a 32-bit integer, a 32-bit IEEE float (held as its bit
/// pattern), a boolean, or nil.
#[derive(Debug, PartialEq)]
pub enum Literal {
    String(String),
    Int(i32),
    Float(u32),
    Boolean(bool),
    True,
    False,
    Nil,
}

/// The mathematical view of a literal.
pub enum LitV {
    Str(Seq<char>),
    Int(i32),
    Float(u32),
    Boolean(bool),
    True,
    False,
    Nil,
}

impl View for Literal {
    type V = LitV;

    open spec fn view(&self) -> LitV {
        match self {
            Literal::String(s) => LitV::Str(s@),
            Literal::Int(i) => LitV::Int(*i),
            Literal::Float(f) => LitV::Float(*f),
            Literal::Boolean(b) => LitV::Boolean(*b),
            Literal::True => LitV::True,
            Literal::False => LitV::False,
            Literal::Nil => LitV::Nil,
        }
    }
}

impl Clone for Literal {
    fn clone(&self) -> (r: Self)
        ensures
            r == *self,
    {
        match self {
            Literal::String(s) => Literal::String(s.clone()),
            Literal::Int(i) => Literal::Int(*i),
            Literal::Float(f) => Literal::Float(*f),
            Literal::Boolean(b) => Literal::Boolean(*b),
            Literal::True => Literal::True,
            Literal::False => Literal::False,
            Literal::Nil => Literal::Nil,
        }
    }
}

/// `false` and `nil` are falsy, a boolean is itself, everything else is truthy.
pub open spec fn lit_truthy(l: LitV) -> bool {
    match l {
        LitV::False | LitV::Nil => false,
        LitV::Boolean(b) => b,
        _ => true,
    }
}

impl IsTruthy for Literal {
    open spec fn truthy(&self) -> bool {
        lit_truthy(self@)
    }

    fn is_truthy(&self) -> (r: bool) {
        match self {
            Literal::False | Literal::Nil => false,
            Literal::Boolean(b) => *b,
            _ => true,
        }
    }
}

/// Every expression form of the language.
#[derive(Debug, PartialEq)]
pub enum Expr {
    Binary(Binary),
    Unary(Unary),
    Logical(Logical),
    Grouping(Grouping),
    Literal(Literal),
    Variable(Variable),
    Assignment(Assignment),
    Call(Call),
    Get { expr: Box<Expr>, name: Token },
}

#[derive(Debug, PartialEq)]
pub struct Call {
    pub callee: Box<Expr>,
    pub paren: Token,
    pub args: Vec<Expr>,
}

#[derive(Debug, PartialEq)]
pub struct Assignment {
    pub id: usize,
    pub name: Token,
    pub value: Box<Expr>,
}

/// An expression that compares or operates on two expressions, e.g. `(1 * 2)`.
#[derive(Debug, PartialEq)]
pub struct Binary {
    pub left: Box<Expr>,
    pub operator: Token,
    pub right: Box<Expr>,
}

/// An expression that operates on a single expression, e.g. `(- 1)`.
#[derive(Debug, PartialEq)]
pub struct Unary {
    pub operator: Token,
    pub right: Box<Expr>,
}

#[derive(Debug, PartialEq)]
pub struct Logical {
    pub left: Box<Expr>,
    pub operator: Token,
    pub right: Box<Expr>,
}

#[derive(Debug, PartialEq)]
pub struct Variable {
    pub id: usize,
    pub name: Token,
}

/// An arbitrary expression grouping.
#[derive(Debug, PartialEq)]
pub struct Grouping {
    pub expression: Box<Expr>,
}

/// The mathematical view of an expression.
pub enum ExprV {
    Binary { left: Box<ExprV>, operator: TokenV, right: Box<ExprV> },
    Unary { operator: TokenV, right: Box<ExprV> },
    Logical { left: Box<ExprV>, operator: TokenV, right: Box<ExprV> },
    Grouping(Box<ExprV>),
    Literal(LitV),
    Variable { id: usize, name: TokenV },
    Assignment { id: usize, name: TokenV, value: Box<ExprV> },
    Call { callee: Box<ExprV>, paren: TokenV, args: Seq<ExprV> },
    Get { expr: Box<ExprV>, name: TokenV },
}

pub open spec fn expr_view(e: Expr) -> ExprV
    decreases e,
{
    match e {
        Expr::Binary(b) => ExprV::Binary {
            left: Box::new(expr_view(*b.left)),
            operator: b.operator@,
            right: Box::new(expr_view(*b.right)),
        },
        Expr::Unary(u) => ExprV::Unary { operator: u.operator@, right: Box::new(expr_view(*u.right)) },
        Expr::Logical(l) => ExprV::Logical {
            left: Box::new(expr_view(*l.left)),
            operator: l.operator@,
            right: Box::new(expr_view(*l.right)),
        },
        Expr::Grouping(g) => ExprV::Grouping(Box::new(expr_view(*g.expression))),
        Expr::Literal(l) => ExprV::Literal(l@),
        Expr::Variable(v) => ExprV::Variable { id: v.id, name: v.name@ },
        Expr::Assignment(a) => ExprV::Assignment {
            id: a.id,
            name: a.name@,
            value: Box::new(expr_view(*a.value)),
        },
        Expr::Call(c) => ExprV::Call {
            callee: Box::new(expr_view(*c.callee)),
            paren: c.paren@,
            args: exprs_view(c.args@),
        },
        Expr::Get { expr, name } => ExprV::Get { expr: Box::new(expr_view(*expr)), name: name@ },
    }
}

pub open spec fn exprs_view(s: Seq<Expr>) -> Seq<ExprV>
    decreases s,
{
    if s.len() == 0 {
        Seq::empty()
    } else {
        exprs_view(s.subrange(0, s.len() - 1)).push(expr_view(s[s.len() - 1]))
    }
}

/// The view of a list of expressions is the list of their views.
pub proof fn lemma_exprs_view(s: Seq<Expr>)
    ensures
        exprs_view(s).len() == s.len(),
        forall|i: int| 0 <= i < s.len() ==> #[trigger] exprs_view(s)[i] == expr_view(s[i]),
    decreases s.len(),
{
    if s.len() > 0 {
        lemma_exprs_view(s.subrange(0, s.len() - 1));
    }
}

/// Viewing a list extended by one expression extends its view.
pub proof fn lemma_exprs_view_push(s: Seq<Expr>, e: Expr)
    ensures
        exprs_view(s.push(e)) == exprs_view(s).push(expr_view(e)),
{
    assert(s.push(e).subrange(0, s.len() as int) =~= s);
}

/// A copy of an expression.
pub fn clone_expr(e: &Expr) -> (r: Expr)
    ensures
        r@ == e@,
    decreases e,
{
    match e {
        Expr::Binary(b) => Expr::Binary(Binary {
            left: Box::new(clone_expr(&b.left)),
            operator: b.operator.clone(),
            right: Box::new(clone_expr(&b.right)),
        }),
        Expr::Unary(u) => Expr::Unary(Unary {
            operator: u.operator.clone(),
            right: Box::new(clone_expr(&u.right)),
        }),
        Expr::Logical(l) => Expr::Logical(Logical {
            left: Box::new(clone_expr(&l.left)),
            operator: l.operator.clone(),
            right: Box::new(clone_expr(&l.right)),
        }),
        Expr::Grouping(g) => Expr::Grouping(Grouping { expression: Box::new(clone_expr(&g.expression)) }),
        Expr::Literal(l) => Expr::Literal(l.clone()),
        Expr::Variable(v) => Expr::Variable(Variable { id: v.id, name: v.name.clone() }),
        Expr::Assignment(a) => Expr::Assignment(Assignment {
            id: a.id,
            name: a.name.clone(),
            value: Box::new(clone_expr(&a.value)),
        }),
        Expr::Call(c) => Expr::Call(Call {
            callee: Box::new(clone_expr(&c.callee)),
            paren: c.paren.clone(),
            args: clone_exprs(&c.args),
        }),
        Expr::Get { expr, name } => Expr::Get { expr: Box::new(clone_expr(expr)), name: name.clone() },
    }
}

/// A copy of a list of expressions.
pub fn clone_exprs(v: &Vec<Expr>) -> (r: Vec<Expr>)
    ensures
        exprs_view(r@) == exprs_view(v@),
    decreases v,
{
    let mut r: Vec<Expr> = Vec::new();
    let mut i: usize = 0;
    while i < v.len()
        invariant
            i <= v.len(),
            exprs_view(r@) == exprs_view(v@.subrange(0, i as int)),
        decreases v.len() - i,
    {
        assert(decreases_to!(v => v@[i as int]));
        let x = clone_expr(&v[i]);
        proof {
            lemma_exprs_view_push(r@, x);
            assert(v@.subrange(0, i + 1).subrange(0, i as int) =~= v@.subrange(0, i as int));
        }
        r.push(x);
        i = i + 1;
    }
    assert(v@.subrange(0, v@.len() as int) =~= v@);
    r
}

impl Clone for Expr {
    fn clone(&self) -> (r: Self)
        ensures
            r@ == self@,
    {
        clone_expr(self)
    }
}

impl View for Expr {
    type V = ExprV;

    open spec fn view(&self) -> ExprV {
        expr_view(*self)
    }
}

/// The result of an evaluated expression (an r-value).
#[derive(Debug, PartialEq)]
pub enum Value {
    Literal(Literal),
    Callable(Rc<Callable>),
    ClassInstance(ClassInstance),
}

/// Something that can be called: a function of the program, a native function, or a
/// class (calling a class makes an instance of it).
#[derive(Debug, PartialEq)]
pub enum Callable {
    Function(Function),
    Native(NativeFunction),
    Class(Class),
}

/// The native functions that the interpreter provides.
#[derive(Debug, Clone, Copy, PartialEq, Eq, Structural)]
pub enum NativeKind {
    /// Seconds since the Unix epoch, as a single-precision float.
    Clock,
}

#[derive(Debug, PartialEq)]
pub struct NativeFunction {
    pub name: String,
    pub arity: usize,
    pub func: NativeKind,
}

#[derive(Debug, PartialEq)]
pub struct Function {
    pub params: Vec<Token>,
    pub body: Vec<Stmt>,
}

/// A class: its name and its fields, in the order they were set (a later entry for a
/// name hides an earlier one).
#[derive(Debug, PartialEq)]
pub struct Class {
    pub name: String,
    pub fields: Vec<(String, Value)>,
}

#[derive(Debug, PartialEq)]
pub struct ClassInstance {
    pub class: Rc<Class>,
}

/// The mathematical view of a value.
pub enum ValueV {
    Literal(LitV),
    Callable(CallableV),
    Instance(ClassV),
}

/// The mathematical view of a callable.
pub enum CallableV {
    Function { params: Seq<TokenV>, body: Seq<StmtV> },
    Native { name: Seq<char>, arity: usize, func: NativeKind },
    Class(ClassV),
}

/// The mathematical view of a class.
pub struct ClassV {
    pub name: Seq<char>,
    pub fields: Seq<(Seq<char>, ValueV)>,
}

pub open spec fn value_view(v: Value) -> ValueV
    decreases v,
{
    match v {
        Value::Literal(l) => ValueV::Literal(l@),
        Value::Callable(c) => ValueV::Callable(callable_view(*c)),
        Value::ClassInstance(i) => ValueV::Instance(class_view(*i.class)),
    }
}

pub open spec fn callable_view(c: Callable) -> CallableV
    decreases c,
{
    match c {
        Callable::Function(f) => CallableV::Function {
            params: tokens_view(f.params@),
            body: stmts_view(f.body@),
        },
        Callable::Native(n) => CallableV::Native { name: n.name@, arity: n.arity, func: n.func },
        Callable::Class(k) => CallableV::Class(class_view(k)),
    }
}

pub open spec fn class_view(c: Class) -> ClassV
    decreases c,
{
    ClassV { name: c.name@, fields: fields_view(c.fields@) }
}

pub open spec fn fields_view(s: Seq<(String, Value)>) -> Seq<(Seq<char>, ValueV)>
    decreases s,
{
    if s.len() == 0 {
        Seq::empty()
    } else {
        let last = s[s.len() - 1];
        fields_view(s.subrange(0, s.len() - 1)).push((last.0@, value_view(last.1)))
    }
}

impl View for Value {
    type V = ValueV;

    open spec fn view(&self) -> ValueV {
        value_view(*self)
    }
}

impl View for Callable {
    type V = CallableV;

    open spec fn view(&self) -> CallableV {
        callable_view(*self)
    }
}

impl View for Class {
    type V = ClassV;

    open spec fn view(&self) -> ClassV {
        class_view(*self)
    }
}

/// Viewing a list of fields extended by one field extends its view.
pub proof fn lemma_fields_view_push(s: Seq<(String, Value)>, x: (String, Value))
    ensures
        fields_view(s.push(x)) == fields_view(s).push((x.0@, value_view(x.1))),
{
    assert(s.push(x).subrange(0, s.len() as int) =~= s);
}

/// The view of a list of fields has one entry per field.
pub proof fn lemma_fields_view_len(s: Seq<(String, Value)>)
    ensures
        fields_view(s).len() == s.len(),
    decreases s.len(),
{
    if s.len() > 0 {
        lemma_fields_view_len(s.subrange(0, s.len() - 1));
    }
}

/// Each entry of the view of a list of fields is the view of that field.
pub proof fn lemma_fields_view_index(s: Seq<(String, Value)>, k: int)
    requires
        0 <= k < s.len(),
    ensures
        fields_view(s).len() == s.len(),
        fields_view(s)[k] == (s[k].0@, value_view(s[k].1)),
    decreases s.len(),
{
    lemma_fields_view_len(s);
    if k < s.len() - 1 {
        lemma_fields_view_index(s.subrange(0, s.len() - 1), k);
    }
}

/// Replacing a field replaces its view.
pub proof fn lemma_fields_view_update(s: Seq<(String, Value)>, k: int, x: (String, Value))
    requires
        0 <= k < s.len(),
    ensures
        fields_view(s.update(k, x)) == fields_view(s).update(k, (x.0@, value_view(x.1))),
    decreases s.len(),
{
    let t = s.update(k, x);
    lemma_fields_view_len(s);
    lemma_fields_view_len(t);
    if k == s.len() - 1 {
        assert(t.subrange(0, t.len() - 1) =~= s.subrange(0, s.len() - 1));
    } else {
        let p = s.subrange(0, s.len() - 1);
        assert(t.subrange(0, t.len() - 1) =~= p.update(k, x));
        lemma_fields_view_update(p, k, x);
        lemma_fields_view_len(p);
    }
    assert(fields_view(t) =~= fields_view(s).update(k, (x.0@, value_view(x.1))));
}

/// The value of the field called `name`: the last entry with that name.
pub open spec fn field_lookup(fields: Seq<(Seq<char>, ValueV)>, name: Seq<char>) -> Option<ValueV>
    decreases fields.len(),
{
    if fields.len() == 0 {
        None
    } else if fields[fields.len() - 1].0 == name {
        Some(fields[fields.len() - 1].1)
    } else {
        field_lookup(fields.subrange(0, fields.len() - 1), name)
    }
}

/// A copy of a value; a callable or an instance shares what it points to.
pub fn clone_value(v: &Value) -> (r: Value)
    ensures
        r@ == v@,
{
    match v {
        Value::Literal(l) => Value::Literal(l.clone()),
        Value::Callable(c) => Value::Callable(c.clone()),
        Value::ClassInstance(i) => Value::ClassInstance(ClassInstance { class: i.class.clone() }),
    }
}

impl Clone for Value {
    fn clone(&self) -> (r: Self)
        ensures
            r@ == self@,
    {
        clone_value(self)
    }
}

/// A copy of a class.
pub fn clone_class(c: &Class) -> (r: Class)
    ensures
        r@ == c@,
{
    let mut fields: Vec<(String, Value)> = Vec::new();
    let mut i: usize = 0;
    while i < c.fields.len()
        invariant
            i <= c.fields.len(),
            fields_view(fields@) == fields_view(c.fields@.subrange(0, i as int)),
        decreases c.fields.len() - i,
    {
        let entry = (c.fields[i].0.clone(), clone_value(&c.fields[i].1));
        proof {
            lemma_fields_view_push(fields@, entry);
            assert(c.fields@.subrange(0, i + 1).subrange(0, i as int) =~= c.fields@.subrange(0, i as int));
        }
        fields.push(entry);
        i = i + 1;
    }
    assert(c.fields@.subrange(0, c.fields@.len() as int) =~= c.fields@);
    Class { name: c.name.clone(), fields }
}

/// Wraps a callable into a value.
pub fn to_callable_value(callable: Callable) -> (r: Value)
    ensures
        r@ == ValueV::Callable(callable@),
{
    Value::Callable(Rc::new(callable))
}

impl Class {
    /// The value of the field called like the token, if the class has one.
    pub fn get(&self, token: &Token) -> (r: Option<Value>)
        ensures
            match r {
                Some(v) => field_lookup(self@.fields, token.lexeme@) == Some(v@),
                None => field_lookup(self@.fields, token.lexeme@) is None,
            },
    {
        let mut i: usize = self.fields.len();
        assert(self.fields@.subrange(0, i as int) =~= self.fields@);
        while i > 0
            invariant
                i <= self.fields.len(),
                field_lookup(self@.fields, token.lexeme@) == field_lookup(
                    fields_view(self.fields@.subrange(0, i as int)),
                    token.lexeme@,
                ),
            decreases i,
        {
            let ghost prefix = self.fields@.subrange(0, i as int);
            let ghost shorter = self.fields@.subrange(0, i - 1);
            assert(prefix.subrange(0, i - 1) =~= shorter);
            assert(fields_view(prefix) == fields_view(shorter).push(
                (prefix[i - 1].0@, value_view(prefix[i - 1].1)),
            ));
            proof {
                lemma_fields_view_len(shorter);
                lemma_fields_view_len(prefix);
            }
            assert(fields_view(prefix).subrange(0, i - 1) =~= fields_view(shorter));
            if self.fields[i - 1].0 == token.lexeme {
                return Some(clone_value(&self.fields[i - 1].1));
            }
            i = i - 1;
        }
        None
    }
}

impl ClassInstance {
    pub fn new(class: Rc<Class>) -> (r: Self)
        ensures
            r.class == class,
    {
        ClassInstance { class }
    }
}

/// Anything that can be called, with the number of arguments it takes.
pub trait TCallable {
    spec fn arg_count(&self) -> nat;

    fn arity(&self) -> (r: usize)
        ensures
            r == self.arg_count(),
    ;
}

impl TCallable for Function {
    open spec fn arg_count(&self) -> nat {
        self.params@.len()
    }

    fn arity(&self) -> (r: usize) {
        self.params.len()
    }
}

impl TCallable for Class {
    open spec fn arg_count(&self) -> nat {
        0
    }

    fn arity(&self) -> (r: usize) {
        0
    }
}

/// Values other than literals (callables and instances) are always truthy.
pub open spec fn value_truthy(v: ValueV) -> bool {
    match v {
        ValueV::Literal(l) => lit_truthy(l),
        _ => true,
    }
}

impl IsTruthy for Value {
    open spec fn truthy(&self) -> bool {
        value_truthy(self@)
    }

    fn is_truthy(&self) -> (r: bool) {
        match self {
            Value::Callable(_) | Value::ClassInstance(_) => true,
            Value::Literal(l) => l.is_truthy(),
        }
    }
}

impl IsTruthy for Callable {
    open spec fn truthy(&self) -> bool {
        true
    }

    fn is_truthy(&self) -> (r: bool) {
        true
    }
}

} // verus!
