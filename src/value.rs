//! Runtime values: literals and callables, with truthiness and equality,
//! and the runtime error that evaluation can end in.
use crate::number::{double_eq, Number};
use crate::token::{copy_literal, Literal, LiteralModel, Token, TokenModel};
use vstd::prelude::*;

verus! {

/// The native clock: milliseconds since the Unix epoch, never decreasing
/// within one interpreter.
#[derive(Clone, Copy, Debug, PartialEq, Eq, Structural)]
pub struct Clock;

impl Clock {
    pub fn arity(&self) -> (r: usize)
        ensures
            r == 0,
    {
        0
    }
}

/// The callables a program can call: the native functions.
#[derive(Clone, Copy, Debug, PartialEq, Eq, Structural)]
pub enum Callable {
    Clock(Clock),
}

pub open spec fn arity_of(c: Callable) -> nat {
    match c {
        Callable::Clock(_) => 0,
    }
}

impl Callable {
    /// The exact number of arguments a call must pass.
    pub fn arity(&self) -> (r: usize)
        ensures
            r == arity_of(*self),
    {
        match self {
            Callable::Clock(c) => c.arity(),
        }
    }
}

/// A runtime value.
#[derive(Debug)]
pub enum LoxObject {
    Function(Callable),
    Literal(Literal),
}

pub enum ObjModel {
    Function(Callable),
    Literal(LiteralModel),
}

impl View for LoxObject {
    type V = ObjModel;

    open spec fn view(&self) -> ObjModel {
        match self {
            LoxObject::Function(c) => ObjModel::Function(*c),
            LoxObject::Literal(l) => ObjModel::Literal(l@),
        }
    }
}

/// `nil` and `false` are falsy; every other value is truthy.
pub open spec fn truthy(v: ObjModel) -> bool {
    match v {
        ObjModel::Literal(LiteralModel::Nil) => false,
        ObjModel::Literal(LiteralModel::Bool(b)) => b,
        _ => true,
    }
}

/// Equality of values: never across variants; numbers by IEEE equality,
/// strings by their characters; callables are equal to nothing.
pub open spec fn objects_equal(a: ObjModel, b: ObjModel) -> bool {
    match (a, b) {
        (ObjModel::Literal(LiteralModel::Num(x)), ObjModel::Literal(LiteralModel::Num(y))) => double_eq(x, y),
        (ObjModel::Literal(LiteralModel::Str(x)), ObjModel::Literal(LiteralModel::Str(y))) => x == y,
        (ObjModel::Literal(LiteralModel::Bool(x)), ObjModel::Literal(LiteralModel::Bool(y))) => x == y,
        (ObjModel::Literal(LiteralModel::Nil), ObjModel::Literal(LiteralModel::Nil)) => true,
        _ => false,
    }
}

/// The variant a value belongs to.
pub open spec fn variant_of(v: ObjModel) -> int {
    match v {
        ObjModel::Function(_) => 0,
        ObjModel::Literal(LiteralModel::Num(_)) => 1,
        ObjModel::Literal(LiteralModel::Str(_)) => 2,
        ObjModel::Literal(LiteralModel::Bool(_)) => 3,
        ObjModel::Literal(LiteralModel::Nil) => 4,
    }
}

/// Values of different variants are never equal: there is no coercion
/// between numbers, strings, booleans, nil and callables.
pub proof fn lemma_no_cross_variant_equality(a: ObjModel, b: ObjModel)
    requires
        variant_of(a) != variant_of(b),
    ensures
        !objects_equal(a, b),
{
}

impl LoxObject {
    pub fn is_truthy(&self) -> (r: bool)
        ensures
            r == truthy(self@),
    {
        match self {
            LoxObject::Literal(Literal::Nil) => false,
            LoxObject::Literal(Literal::Boolean(b)) => *b,
            _ => true,
        }
    }

    pub fn equals(&self, o: &LoxObject) -> (r: bool)
        ensures
            r == objects_equal(self@, o@),
    {
        match (self, o) {
            (LoxObject::Literal(Literal::Number(x)), LoxObject::Literal(Literal::Number(y))) => x.equals(y),
            (LoxObject::Literal(Literal::String(x)), LoxObject::Literal(Literal::String(y))) => *x == *y,
            (LoxObject::Literal(Literal::Boolean(x)), LoxObject::Literal(Literal::Boolean(y))) => *x == *y,
            (LoxObject::Literal(Literal::Nil), LoxObject::Literal(Literal::Nil)) => true,
            _ => false,
        }
    }

    /// A copy with the same view.
    pub fn duplicate(&self) -> (r: LoxObject)
        ensures
            r@ == self@,
    {
        match self {
            LoxObject::Function(c) => LoxObject::Function(*c),
            LoxObject::Literal(l) => LoxObject::Literal(copy_literal(l)),
        }
    }

    /// How `print` shows the value: strings unquoted, `true`/`false`, `nil`,
    /// `<function>` for a callable. A number has no text here: its decimal
    /// form is floating-point formatting, which the caller does.
    pub fn text(&self) -> (r: Option<String>)
        ensures
            r is None <==> (self@ matches ObjModel::Literal(LiteralModel::Num(_))),
            r matches Some(t) ==> t@ == text_of(self@),
    {
        match self {
            LoxObject::Literal(Literal::Number(_)) => None,
            LoxObject::Literal(Literal::String(s)) => Some(s.clone()),
            LoxObject::Literal(Literal::Boolean(true)) => Some("true".to_owned()),
            LoxObject::Literal(Literal::Boolean(false)) => Some("false".to_owned()),
            LoxObject::Literal(Literal::Nil) => Some("nil".to_owned()),
            LoxObject::Function(_) => Some("<function>".to_owned()),
        }
    }
}

/// The printed form of a value other than a number.
pub open spec fn text_of(v: ObjModel) -> Seq<char> {
    match v {
        ObjModel::Literal(LiteralModel::Str(s)) => s,
        ObjModel::Literal(LiteralModel::Bool(true)) => "true"@,
        ObjModel::Literal(LiteralModel::Bool(false)) => "false"@,
        ObjModel::Literal(LiteralModel::Nil) => "nil"@,
        _ => "<function>"@,
    }
}

/// A failure during execution, at a token.
#[derive(Debug)]
pub struct RuntimeError {
    pub token: Token,
    pub message: String,
}

pub struct ErrModel {
    pub token: TokenModel,
    pub message: Seq<char>,
}

impl View for RuntimeError {
    type V = ErrModel;

    open spec fn view(&self) -> ErrModel {
        ErrModel { token: self.token@, message: self.message@ }
    }
}

impl RuntimeError {
    pub fn new(token: &Token, message: &str) -> (r: RuntimeError)
        ensures
            r@ == (ErrModel { token: token@, message: message@ }),
    {
        RuntimeError { token: token.duplicate(), message: message.to_owned() }
    }
}

} // verus!
