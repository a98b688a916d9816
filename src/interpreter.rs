//! The tree-walking interpreter, proved to follow `semantics`.
use crate::ast::{Expr, Stmt, AST};
use crate::environment::{env_assign, Environment, ScopeModel};
use crate::number::Number;
use crate::semantics::{
    arity_message, binary_value, boolean, both_numbers, decimal, digit_char, eval_args, eval_expr, exec_block,
    exec_stmt, exec_while, extends, invoke, num, num_of, run_stmts, unary_value, State,
};
use crate::token::{copy_literal, Literal, Token, TokenType};
use crate::value::{truthy, Callable, Clock, ErrModel, LoxObject, ObjModel, RuntimeError};
use vstd::prelude::*;

verus! {

#[verifier::external_type_specification]
#[verifier::external_body]
pub struct ExSystemTime(std::time::SystemTime);

/// Relies on `std::time::SystemTime::now`: the machine's clock now. It
/// depends on the machine, so nothing is stated of it.
#[verifier::external_body]
fn system_now() -> (r: std::time::SystemTime) {
    std::time::SystemTime::now()
}

/// Relies on `std::time::SystemTime::duration_since`, applied to the Unix
/// epoch: `None` when the time lies before it. Nothing more is stated.
#[verifier::external_body]
fn since_unix_epoch(t: &std::time::SystemTime) -> (r: Option<std::time::Duration>) {
    t.duration_since(std::time::UNIX_EPOCH).ok()
}

/// Relies on `std::time::Duration::as_nanos`: the whole nanoseconds in `d`.
#[verifier::external_body]
fn whole_nanos(d: &std::time::Duration) -> (r: u128) {
    d.as_nanos()
}

/// Nanoseconds in a millisecond.
pub const NANOS_PER_MILLI: u64 = 1_000_000;

/// The raw clock reading: nanoseconds since the Unix epoch, 0 before it, and
/// the largest `u64` once past what that holds.
fn clock_nanos() -> (r: u64) {
    let now = system_now();
    match since_unix_epoch(&now) {
        Some(d) => {
            let n = whole_nanos(&d);
            if n > u64::MAX as u128 {
                u64::MAX
            } else {
                n as u64
            }
        },
        None => 0,
    }
}

pub open spec fn result_view(r: Result<LoxObject, RuntimeError>) -> Result<ObjModel, ErrModel> {
    match r {
        Ok(v) => Ok(v@),
        Err(e) => Err(e@),
    }
}

pub open spec fn unit_view(r: Result<(), RuntimeError>) -> Result<(), ErrModel> {
    match r {
        Ok(_) => Ok(()),
        Err(e) => Err(e@),
    }
}

/// The largest number of loop iterations one interpreter runs.
pub const LOOP_FUEL: u64 = 0xffff_ffff_ffff_ffff;

pub struct Interpreter {
    environment: Environment,
    printed: Vec<LoxObject>,
    clock: u64,
    fuel: u64,
    readings: Ghost<Seq<u64>>,
}

impl View for Interpreter {
    type V = State;

    closed spec fn view(&self) -> State {
        State {
            scopes: self.environment@,
            printed: self.printed@.map_values(|v: LoxObject| v@),
            clock: self.clock,
            ticks: self.readings@.len(),
            fuel: self.fuel as nat,
        }
    }
}

/// The decimal numeral of `n`.
pub fn decimal_text(n: usize) -> (r: String)
    ensures
        r@ == decimal(n as nat),
    decreases n,
{
    let d = n % 10;
    let c = if d == 0 { '0' } else if d == 1 { '1' } else if d == 2 { '2' } else if d == 3 { '3' }
        else if d == 4 { '4' } else if d == 5 { '5' } else if d == 6 { '6' } else if d == 7 { '7' }
        else if d == 8 { '8' } else { '9' };
    let mut s = if n < 10 { String::new() } else { decimal_text(n / 10) };
    s.push(c);
    proof {
        if n < 10 {
            assert(s@ =~= seq![digit_char(n as nat)]);
        }
    }
    s
}

/// "Expected N arguments but got M."
pub fn arity_error(paren: &Token, expected: usize, got: usize) -> (r: RuntimeError)
    ensures
        r@ == (ErrModel { token: paren@, message: arity_message(expected as nat, got as nat) }),
{
    let mut m = "Expected ".to_owned();
    m.append(decimal_text(expected).as_str());
    m.append(" arguments but got ");
    m.append(decimal_text(got).as_str());
    m.append(".");
    RuntimeError { token: paren.duplicate(), message: m }
}

fn number_operands(a: &LoxObject, b: &LoxObject) -> (r: Option<(Number, Number)>)
    ensures
        r is Some <==> both_numbers(a@, b@),
        r matches Some(p) ==> p.0.bits == num_of(a@) && p.1.bits == num_of(b@),
{
    match (a, b) {
        (LoxObject::Literal(Literal::Number(x)), LoxObject::Literal(Literal::Number(y))) => Some((*x, *y)),
        _ => None,
    }
}

fn number(n: Number) -> (r: LoxObject)
    ensures
        r@ == num(n.bits),
{
    LoxObject::Literal(Literal::Number(n))
}

fn boolean_value(b: bool) -> (r: LoxObject)
    ensures
        r@ == boolean(b),
{
    LoxObject::Literal(Literal::Boolean(b))
}

/// `+`: numbers add, strings concatenate; anything else is an error.
pub fn plus(a: &LoxObject, b: &LoxObject, op: &Token) -> (r: Result<LoxObject, RuntimeError>)
    requires
        op.token_type == TokenType::PLUS,
    ensures
        result_view(r) == binary_value(op@, a@, b@),
{
    match (a, b) {
        (LoxObject::Literal(Literal::Number(x)), LoxObject::Literal(Literal::Number(y))) => Ok(number(x.add(y))),
        (LoxObject::Literal(Literal::String(x)), LoxObject::Literal(Literal::String(y))) => {
            let mut s = x.clone();
            s.append(y.as_str());
            Ok(LoxObject::Literal(Literal::String(s)))
        },
        _ => Err(RuntimeError::new(op, "Operands must be two numbers or two strings.")),
    }
}

/// A binary operator applied to evaluated operands.
pub fn binary_op(a: &LoxObject, b: &LoxObject, op: &Token) -> (r: Result<LoxObject, RuntimeError>)
    ensures
        result_view(r) == binary_value(op@, a@, b@),
{
    let k = op.token_type;
    if k == TokenType::PLUS {
        return plus(a, b, op);
    }
    if k == TokenType::EQUAL_EQUAL {
        return Ok(boolean_value(a.equals(b)));
    }
    if k == TokenType::BANG_EQUAL {
        return Ok(boolean_value(!a.equals(b)));
    }
    if !(k == TokenType::MINUS || k == TokenType::STAR || k == TokenType::SLASH || k == TokenType::GREATER
        || k == TokenType::GREATER_EQUAL || k == TokenType::LESS || k == TokenType::LESS_EQUAL) {
        return Err(RuntimeError::new(op, "Unrecognized token for Binary operation."));
    }
    let (x, y) = match number_operands(a, b) {
        Some(p) => p,
        None => return Err(RuntimeError::new(op, "Operands must be numbers.")),
    };
    if k == TokenType::MINUS {
        Ok(number(x.subtract(&y)))
    } else if k == TokenType::STAR {
        Ok(number(x.multiply(&y)))
    } else if k == TokenType::SLASH {
        if y.is_zero() {
            Err(RuntimeError::new(op, "Divide by zero error."))
        } else {
            Ok(number(x.divide(&y)))
        }
    } else if k == TokenType::GREATER {
        Ok(boolean_value(y.less_than(&x)))
    } else if k == TokenType::GREATER_EQUAL {
        Ok(boolean_value(y.less_than(&x) || x.equals(&y)))
    } else if k == TokenType::LESS {
        Ok(boolean_value(x.less_than(&y)))
    } else {
        Ok(boolean_value(x.less_than(&y) || x.equals(&y)))
    }
}

/// A unary operator applied to an evaluated operand.
pub fn unary_op(v: &LoxObject, op: &Token) -> (r: Result<LoxObject, RuntimeError>)
    ensures
        result_view(r) == unary_value(op@, v@),
{
    if op.token_type == TokenType::BANG {
        Ok(boolean_value(!v.is_truthy()))
    } else if op.token_type == TokenType::MINUS {
        match v {
            LoxObject::Literal(Literal::Number(n)) => Ok(number(n.negate())),
            _ => Err(RuntimeError::new(op, "Operand must be a number.")),
        }
    } else {
        Err(RuntimeError::new(op, "Unrecognized token for Unary operation."))
    }
}

proof fn lemma_env_assign_len(sc: Seq<ScopeModel>, n: Seq<char>, v: ObjModel)
    ensures
        env_assign(sc, n, v) matches Some(r) ==> r.len() == sc.len(),
    decreases sc.len(),
{
    if sc.len() > 0 {
        lemma_env_assign_len(sc.drop_last(), n, v);
    }
}

proof fn lemma_extends_trans(t: Seq<u64>, b: Seq<u64>, a: Seq<u64>)
    requires
        extends(t, b),
        extends(b, a),
    ensures
        extends(t, a),
{
    assert forall|i: int| 0 <= i < a.len() implies t[i] == a[i] by {
        assert(b[i] == a[i]);
        assert(t[i] == b[i]);
    }
}

/// The result of evaluating the arguments from some position on, with the
/// values before that position put in front.
pub open spec fn prepend(vs: Seq<ObjModel>, r: (Result<Seq<ObjModel>, ErrModel>, State)) -> (Result<Seq<ObjModel>, ErrModel>, State) {
    match r.0 {
        Ok(rest) => (Ok(vs + rest), r.1),
        Err(er) => (Err(er), r.1),
    }
}

pub open spec fn values_view(v: Seq<LoxObject>) -> Seq<ObjModel> {
    v.map_values(|o: LoxObject| o@)
}

impl Interpreter {
    pub closed spec fn wf(&self) -> bool {
        self.environment@.len() >= 1
    }

    pub closed spec fn readings(&self) -> Seq<u64> {
        self.readings@
    }

    /// The global scope holds the native `clock`; nothing printed yet.
    pub fn new() -> (r: Interpreter)
        ensures
            r.wf(),
            r@ == (State {
                scopes: seq![seq![("clock"@, ObjModel::Function(Callable::Clock(Clock)))]],
                printed: Seq::empty(),
                clock: 0,
                ticks: 0,
                fuel: LOOP_FUEL as nat,
            }),
            r.readings() == Seq::<u64>::empty(),
    {
        let mut environment = Environment::new();
        environment.define("clock", LoxObject::Function(Callable::Clock(Clock)));
        let r = Interpreter { environment, printed: Vec::new(), clock: 0, fuel: LOOP_FUEL, readings: Ghost(Seq::empty()) };
        assert(r@.printed =~= Seq::empty());
        assert(r@.scopes =~~= seq![seq![("clock"@, ObjModel::Function(Callable::Clock(Clock)))]]);
        r
    }

    /// The values printed so far, in order.
    pub fn printed(&self) -> (r: &Vec<LoxObject>)
        ensures
            r@.map_values(|v: LoxObject| v@) == self@.printed,
    {
        &self.printed
    }

    /// Hands over the values printed so far, in order.
    pub fn take_printed(&mut self) -> (r: Vec<LoxObject>)
        ensures
            values_view(r@) == old(self)@.printed,
    {
        let mut out: Vec<LoxObject> = Vec::new();
        std::mem::swap(&mut out, &mut self.printed);
        out
    }

    /// Calls a native function whose arity has been checked.
    fn invoke_native(&mut self, f: Callable, arguments: &Vec<LoxObject>) -> (r: LoxObject)
        requires
            old(self).wf(),
        ensures
            final(self).wf(),
            extends(final(self).readings(), old(self).readings()),
            final(self)@.fuel == old(self)@.fuel,
            final(self)@.scopes == old(self)@.scopes,
            forall|t: Seq<u64>| extends(t, final(self).readings()) ==>
                #[trigger] invoke(f, old(self)@, t) == (Ok::<ObjModel, ErrModel>(r@), final(self)@),
    {
        match f {
            Callable::Clock(_) => {
                let raw = clock_nanos();
                let ghost k = self.readings@.len();
                self.readings = Ghost(self.readings@.push(raw));
                let reading = if raw > self.clock { raw } else { self.clock };
                self.clock = reading;
                let r = number(Number::from_integer(reading).divide(&Number::from_integer(NANOS_PER_MILLI)));
                assert forall|t: Seq<u64>| extends(t, self.readings@) implies
                    #[trigger] invoke(f, old(self)@, t) == (Ok::<ObjModel, ErrModel>(r@), self@) by {
                    assert(t[k as int] == self.readings@[k as int]);
                }
                r
            },
        }
    }

    /// Evaluates an expression, left to right and depth first.
    pub fn evaluate(&mut self, e: &Expr) -> (r: Result<LoxObject, RuntimeError>)
        requires
            old(self).wf(),
        ensures
            final(self).wf(),
            extends(final(self).readings(), old(self).readings()),
            final(self)@.fuel == old(self)@.fuel,
            final(self)@.scopes.len() == old(self)@.scopes.len(),
            forall|t: Seq<u64>| extends(t, final(self).readings()) ==>
                #[trigger] eval_expr(*e, old(self)@, t) == (result_view(r), final(self)@),
        decreases e,
    {
        let ghost s0 = self@;
        let ghost r0 = self.readings@;
        match e {
            Expr::Literal(l) => Ok(LoxObject::Literal(copy_literal(l))),
            Expr::Grouping(inner) => {
                let r = self.evaluate(inner);
                assert forall|t: Seq<u64>| extends(t, self.readings@) implies #[trigger] eval_expr(*e, s0, t)
                    == (result_view(r), self@) by {
                    assert(eval_expr(**inner, s0, t) == (result_view(r), self@));
                }
                r
            },
            Expr::Unary(op, operand) => {
                let v = match self.evaluate(operand) {
                    Ok(v) => v,
                    Err(er) => {
                        assert(*e == Expr::Unary(*op, *operand));
                        assert forall|t: Seq<u64>| extends(t, self.readings@) implies #[trigger] eval_expr(*e, s0, t)
                            == (result_view(Err::<LoxObject, RuntimeError>(er)), self@) by {
                            assert(eval_expr(**operand, s0, t) == (Err::<ObjModel, ErrModel>(er@), self@));
                        }
                        return Err(er);
                    },
                };
                let r = unary_op(&v, op);
                assert forall|t: Seq<u64>| extends(t, self.readings@) implies #[trigger] eval_expr(*e, s0, t)
                    == (result_view(r), self@) by {
                    assert(eval_expr(**operand, s0, t) == (Ok::<ObjModel, ErrModel>(v@), self@));
                }
                r
            },
            Expr::Binary(left, op, right) => {
                let a = match self.evaluate(left) {
                    Ok(a) => a,
                    Err(er) => {
                        assert forall|t: Seq<u64>| extends(t, self.readings@) implies #[trigger] eval_expr(*e, s0, t)
                            == (result_view(Err::<LoxObject, RuntimeError>(er)), self@) by {
                            assert(eval_expr(**left, s0, t) == (Err::<ObjModel, ErrModel>(er@), self@));
                        }
                        return Err(er);
                    },
                };
                let ghost s1 = self@;
                let ghost r1 = self.readings@;
                let b = match self.evaluate(right) {
                    Ok(b) => b,
                    Err(er) => {
                        proof {
                            assert forall|t: Seq<u64>| extends(t, self.readings@) implies #[trigger] eval_expr(*e, s0, t)
                                == (result_view(Err::<LoxObject, RuntimeError>(er)), self@) by {
                                lemma_extends_trans(t, self.readings@, r1);
                                assert(eval_expr(**left, s0, t) == (Ok::<ObjModel, ErrModel>(a@), s1));
                                assert(eval_expr(**right, s1, t) == (Err::<ObjModel, ErrModel>(er@), self@));
                            }
                        }
                        return Err(er);
                    },
                };
                let r = binary_op(&a, &b, op);
                proof {
                    assert forall|t: Seq<u64>| extends(t, self.readings@) implies #[trigger] eval_expr(*e, s0, t)
                        == (result_view(r), self@) by {
                        lemma_extends_trans(t, self.readings@, r1);
                        assert(eval_expr(**left, s0, t) == (Ok::<ObjModel, ErrModel>(a@), s1));
                        assert(eval_expr(**right, s1, t) == (Ok::<ObjModel, ErrModel>(b@), self@));
                    }
                }
                r
            },
            Expr::Logical(left, op, right) => {
                let a = match self.evaluate(left) {
                    Ok(a) => a,
                    Err(er) => {
                        assert forall|t: Seq<u64>| extends(t, self.readings@) implies #[trigger] eval_expr(*e, s0, t)
                            == (result_view(Err::<LoxObject, RuntimeError>(er)), self@) by {
                            assert(eval_expr(**left, s0, t) == (Err::<ObjModel, ErrModel>(er@), self@));
                        }
                        return Err(er);
                    },
                };
                let ghost s1 = self@;
                let ghost r1 = self.readings@;
                if (op.token_type == TokenType::OR) == a.is_truthy() {
                    assert forall|t: Seq<u64>| extends(t, self.readings@) implies #[trigger] eval_expr(*e, s0, t)
                        == (result_view(Ok::<LoxObject, RuntimeError>(a)), self@) by {
                        assert(eval_expr(**left, s0, t) == (Ok::<ObjModel, ErrModel>(a@), s1));
                    }
                    Ok(a)
                } else {
                    let r = self.evaluate(right);
                    proof {
                        assert forall|t: Seq<u64>| extends(t, self.readings@) implies #[trigger] eval_expr(*e, s0, t)
                            == (result_view(r), self@) by {
                            lemma_extends_trans(t, self.readings@, r1);
                            assert(eval_expr(**left, s0, t) == (Ok::<ObjModel, ErrModel>(a@), s1));
                            assert(eval_expr(**right, s1, t) == (result_view(r), self@));
                        }
                    }
                    r
                }
            },
            Expr::Variable(name) => self.environment.get(name),
            Expr::Assign(name, value) => {
                let v = match self.evaluate(value) {
                    Ok(v) => v,
                    Err(er) => {
                        assert forall|t: Seq<u64>| extends(t, self.readings@) implies #[trigger] eval_expr(*e, s0, t)
                            == (result_view(Err::<LoxObject, RuntimeError>(er)), self@) by {
                            assert(eval_expr(**value, s0, t) == (Err::<ObjModel, ErrModel>(er@), self@));
                        }
                        return Err(er);
                    },
                };
                let ghost s1 = self@;
                let copy = v.duplicate();
                proof {
                    lemma_env_assign_len(self.environment@, name.lexeme@, v@);
                }
                let r = match self.environment.assign(name, v) {
                    Ok(()) => Ok(copy),
                    Err(er) => Err(er),
                };
                assert forall|t: Seq<u64>| extends(t, self.readings@) implies #[trigger] eval_expr(*e, s0, t)
                    == (result_view(r), self@) by {
                    assert(eval_expr(**value, s0, t) == (Ok::<ObjModel, ErrModel>(copy@), s1));
                }
                r
            },
            Expr::Call(callee, paren, args) => {
                let c = match self.evaluate(callee) {
                    Ok(c) => c,
                    Err(er) => {
                        assert forall|t: Seq<u64>| extends(t, self.readings@) implies #[trigger] eval_expr(*e, s0, t)
                            == (result_view(Err::<LoxObject, RuntimeError>(er)), self@) by {
                            assert(eval_expr(**callee, s0, t) == (Err::<ObjModel, ErrModel>(er@), self@));
                        }
                        return Err(er);
                    },
                };
                let ghost cv = c@;
                let f = match c {
                    LoxObject::Function(f) => f,
                    _ => {
                        let er = RuntimeError::new(paren, "Can only call functions and classes.");
                        assert forall|t: Seq<u64>| extends(t, self.readings@) implies #[trigger] eval_expr(*e, s0, t)
                            == (result_view(Err::<LoxObject, RuntimeError>(er)), self@) by {
                            assert(eval_expr(**callee, s0, t) == (Ok::<ObjModel, ErrModel>(cv), self@));
                        }
                        return Err(er);
                    },
                };
                let ghost s1 = self@;
                let ghost r1 = self.readings@;
                let mut values: Vec<LoxObject> = Vec::new();
                let mut i: usize = 0;
                proof {
                    assert forall|t: Seq<u64>| extends(t, self.readings@) implies #[trigger] eval_args(*e, 0, s1, t)
                        == prepend(values_view(values@), eval_args(*e, i as int, self@, t)) by {
                        let x = eval_args(*e, 0, s1, t);
                        if x.0 is Ok {
                            assert(values_view(values@) + x.0->Ok_0 =~= x.0->Ok_0);
                        }
                    }
                }
                while i < args.len()
                    invariant
                        self.wf(),
                        i <= args@.len(),
                        *e == Expr::Call(*callee, *paren, *args),
                        s0 == old(self)@,
                        r0 == old(self).readings@,
                        extends(self.readings@, r1),
                        extends(r1, r0),
                        forall|t: Seq<u64>| extends(t, r1) ==> #[trigger] eval_expr(**callee, s0, t)
                            == (Ok::<ObjModel, ErrModel>(ObjModel::Function(f)), s1),
                        self@.fuel == s0.fuel,
                        self@.scopes.len() == s0.scopes.len(),
                        forall|t: Seq<u64>| extends(t, self.readings@) ==> #[trigger] eval_args(*e, 0, s1, t)
                            == prepend(values_view(values@), eval_args(*e, i as int, self@, t)),
                    decreases args@.len() - i,
                {
                    let ghost si = self@;
                    let ghost ri = self.readings@;
                    let ghost vi = values_view(values@);
                    proof {
                        broadcast use vstd::std_specs::vec::axiom_vec_index_decreases;
                        let ghost ee = *e;
                        let ghost aa = *args;
                        assert(ee == Expr::Call(*callee, *paren, aa));
                        assert(decreases_to!(ee => ee->Call_2));
                        assert(decreases_to!(aa => aa@));
                        assert(decreases_to!(aa@ => aa@[i as int]));
                        assert(decreases_to!(ee => aa@[i as int]));
                    }
                    match self.evaluate(&args[i]) {
                        Ok(v) => {
                            values.push(v);
                            i = i + 1;
                            proof {
                                lemma_extends_trans(self.readings@, ri, r1);
                                assert(values_view(values@) =~= vi.push(v@));
                                assert forall|t: Seq<u64>| extends(t, self.readings@) implies #[trigger] eval_args(*e, 0, s1, t)
                                    == prepend(values_view(values@), eval_args(*e, i as int, self@, t)) by {
                                    lemma_extends_trans(t, self.readings@, ri);
                                    assert(eval_expr(args@[i - 1], si, t) == (Ok::<ObjModel, ErrModel>(v@), self@));
                                    let rest = eval_args(*e, i as int, self@, t);
                                    if rest.0 is Ok {
                                        assert(vi + (seq![v@] + rest.0->Ok_0) =~= vi.push(v@) + rest.0->Ok_0);
                                    }
                                }
                            }
                        },
                        Err(er) => {
                            proof {
                                lemma_extends_trans(self.readings@, ri, r1);
                                assert(extends(ri, r1));
                                assert(extends(self.readings@, ri));
                                lemma_extends_trans(self.readings@, r1, r0);
                                assert(extends(self.readings@, r0));
                                assert forall|t: Seq<u64>| extends(t, self.readings@) implies #[trigger] eval_expr(*e, s0, t)
                                    == (result_view(Err::<LoxObject, RuntimeError>(er)), self@) by {
                                    lemma_extends_trans(t, self.readings@, ri);
                                    lemma_extends_trans(t, ri, r1);
                                    assert(eval_expr(args@[i as int], si, t) == (Err::<ObjModel, ErrModel>(er@), self@));
                                    assert(eval_args(*e, 0, s1, t) == prepend(vi, eval_args(*e, i as int, si, t)));
                                    assert(eval_expr(**callee, s0, t) == (Ok::<ObjModel, ErrModel>(ObjModel::Function(f)), s1));
                                }
                            }
                            return Err(er);
                        },
                    }
                }
                let ghost s2 = self@;
                let ghost r2 = self.readings@;
                let n = values.len();
                let arity = f.arity();
                if n != arity {
                    let er = arity_error(paren, arity, n);
                    proof {
                        assert forall|t: Seq<u64>| extends(t, self.readings@) implies #[trigger] eval_expr(*e, s0, t)
                            == (result_view(Err::<LoxObject, RuntimeError>(er)), self@) by {
                            lemma_extends_trans(t, self.readings@, r1);
                            assert(values_view(values@) + Seq::<ObjModel>::empty() =~= values_view(values@));
                            assert(eval_args(*e, 0, s1, t) == (Ok::<Seq<ObjModel>, ErrModel>(values_view(values@)), s2));
                            assert(eval_expr(**callee, s0, t) == (Ok::<ObjModel, ErrModel>(ObjModel::Function(f)), s1));
                        }
                    }
                    return Err(er);
                }
                let r = self.invoke_native(f, &values);
                proof {
                    lemma_extends_trans(self.readings@, r2, r1);
                    assert forall|t: Seq<u64>| extends(t, self.readings@) implies #[trigger] eval_expr(*e, s0, t)
                        == (result_view(Ok::<LoxObject, RuntimeError>(r)), self@) by {
                        lemma_extends_trans(t, self.readings@, r2);
                        lemma_extends_trans(t, r2, r1);
                        assert(values_view(values@) + Seq::<ObjModel>::empty() =~= values_view(values@));
                        assert(eval_args(*e, 0, s1, t) == (Ok::<Seq<ObjModel>, ErrModel>(values_view(values@)), s2));
                        assert(eval_expr(**callee, s0, t) == (Ok::<ObjModel, ErrModel>(ObjModel::Function(f)), s1));
                        assert(invoke(f, s2, t) == (Ok::<ObjModel, ErrModel>(r@), self@));
                    }
                }
                Ok(r)
            },
        }
    }

    /// Executes a statement. A runtime error stops it at once; a block's
    /// scope is closed on every way out.
    pub fn execute(&mut self, s: &Stmt) -> (r: Result<(), RuntimeError>)
        requires
            old(self).wf(),
        ensures
            final(self).wf(),
            extends(final(self).readings(), old(self).readings()),
            final(self)@.fuel <= old(self)@.fuel,
            final(self)@.scopes.len() == old(self)@.scopes.len(),
            forall|t: Seq<u64>| extends(t, final(self).readings()) ==>
                #[trigger] exec_stmt(*s, old(self)@, t) == (unit_view(r), final(self)@),
        decreases old(self)@.fuel, s,
    {
        let ghost s0 = self@;
        let ghost r0 = self.readings@;
        match s {
            Stmt::Expression(e) => {
                let v = self.evaluate(e);
                let r = match v {
                    Ok(_) => Ok(()),
                    Err(er) => Err(er),
                };
                assert forall|t: Seq<u64>| extends(t, self.readings@) implies #[trigger] exec_stmt(*s, s0, t)
                    == (unit_view(r), self@) by {
                    assert(eval_expr(**e, s0, t) == (result_view(v), self@));
                }
                r
            },
            Stmt::Print(e) => {
                let v = match self.evaluate(e) {
                    Ok(v) => v,
                    Err(er) => {
                        assert forall|t: Seq<u64>| extends(t, self.readings@) implies #[trigger] exec_stmt(*s, s0, t)
                            == (unit_view(Err::<(), RuntimeError>(er)), self@) by {
                            assert(eval_expr(**e, s0, t) == (Err::<ObjModel, ErrModel>(er@), self@));
                        }
                        return Err(er);
                    },
                };
                let ghost s1 = self@;
                let ghost vv = v@;
                self.printed.push(v);
                assert(self@.printed =~= s1.printed.push(vv));
                assert forall|t: Seq<u64>| extends(t, self.readings@) implies #[trigger] exec_stmt(*s, s0, t)
                    == (unit_view(Ok::<(), RuntimeError>(())), self@) by {
                    assert(eval_expr(**e, s0, t) == (Ok::<ObjModel, ErrModel>(vv), s1));
                }
                Ok(())
            },
            Stmt::Var(name, init) => {
                let v = match self.evaluate(init) {
                    Ok(v) => v,
                    Err(er) => {
                        assert forall|t: Seq<u64>| extends(t, self.readings@) implies #[trigger] exec_stmt(*s, s0, t)
                            == (unit_view(Err::<(), RuntimeError>(er)), self@) by {
                            assert(eval_expr(**init, s0, t) == (Err::<ObjModel, ErrModel>(er@), self@));
                        }
                        return Err(er);
                    },
                };
                let ghost s1 = self@;
                let ghost vv = v@;
                self.environment.define(name.lexeme.as_str(), v);
                assert forall|t: Seq<u64>| extends(t, self.readings@) implies #[trigger] exec_stmt(*s, s0, t)
                    == (unit_view(Ok::<(), RuntimeError>(())), self@) by {
                    assert(eval_expr(**init, s0, t) == (Ok::<ObjModel, ErrModel>(vv), s1));
                }
                Ok(())
            },
            Stmt::Block(statements) => {
                self.environment.new_enclosed();
                let ghost open = self@;
                let mut i: usize = 0;
                assert forall|t: Seq<u64>| extends(t, self.readings@) implies #[trigger] exec_block(*s, 0, open, t)
                    == exec_block(*s, i as int, self@, t) by {}
                while i < statements.len()
                    invariant
                        self.wf(),
                        *s == Stmt::Block(*statements),
                        s0 == old(self)@,
                        r0 == old(self).readings@,
                        open == (State { scopes: s0.scopes.push(Seq::empty()), ..s0 }),
                        i <= statements@.len(),
                        self@.scopes.len() == s0.scopes.len() + 1,
                        s0.scopes.len() >= 1,
                        self.fuel <= old(self).fuel,
                        extends(self.readings@, r0),
                        forall|t: Seq<u64>| extends(t, self.readings@) ==> #[trigger] exec_block(*s, 0, open, t)
                            == exec_block(*s, i as int, self@, t),
                    decreases statements@.len() - i,
                {
                    let ghost si = self@;
                    let ghost ri = self.readings@;
                    proof {
                        let ghost ss = *s;
                        let ghost aa = *statements;
                        assert(decreases_to!(ss => ss->Block_0));
                        assert(decreases_to!(aa => aa@));
                        assert(decreases_to!(aa@ => aa@[i as int]));
                    }
                    match self.execute(&statements[i]) {
                        Ok(()) => {
                            i = i + 1;
                            proof {
                                lemma_extends_trans(self.readings@, ri, r0);
                                assert forall|t: Seq<u64>| extends(t, self.readings@) implies #[trigger] exec_block(*s, 0, open, t)
                                    == exec_block(*s, i as int, self@, t) by {
                                    lemma_extends_trans(t, self.readings@, ri);
                                    assert(exec_stmt(statements@[i - 1], si, t) == (Ok::<(), ErrModel>(()), self@));
                                    assert(exec_block(*s, i - 1, si, t) == exec_block(*s, i as int, self@, t));
                                }
                            }
                        },
                        Err(er) => {
                            let ghost inner = self@;
                            self.environment.close_enclosed();
                            proof {
                                lemma_extends_trans(self.readings@, ri, r0);
                                assert forall|t: Seq<u64>| extends(t, self.readings@) implies #[trigger] exec_stmt(*s, s0, t)
                                    == (unit_view(Err::<(), RuntimeError>(er)), self@) by {
                                    lemma_extends_trans(t, self.readings@, ri);
                                    assert(exec_stmt(statements@[i as int], si, t) == (Err::<(), ErrModel>(er@), inner));
                                    assert(exec_block(*s, 0, open, t) == exec_block(*s, i as int, si, t));
                                }
                            }
                            return Err(er);
                        },
                    }
                }
                let ghost inner = self@;
                self.environment.close_enclosed();
                assert forall|t: Seq<u64>| extends(t, self.readings@) implies #[trigger] exec_stmt(*s, s0, t)
                    == (unit_view(Ok::<(), RuntimeError>(())), self@) by {
                    assert(exec_block(*s, 0, open, t) == exec_block(*s, i as int, inner, t));
                }
                Ok(())
            },
            Stmt::If(cond, then_branch, else_branch) => {
                let c = match self.evaluate(cond) {
                    Ok(c) => c,
                    Err(er) => {
                        assert forall|t: Seq<u64>| extends(t, self.readings@) implies #[trigger] exec_stmt(*s, s0, t)
                            == (unit_view(Err::<(), RuntimeError>(er)), self@) by {
                            assert(eval_expr(**cond, s0, t) == (Err::<ObjModel, ErrModel>(er@), self@));
                        }
                        return Err(er);
                    },
                };
                let ghost s1 = self@;
                let ghost r1 = self.readings@;
                let r = if c.is_truthy() {
                    self.execute(then_branch)
                } else {
                    match else_branch {
                        Some(b) => self.execute(b),
                        None => Ok(()),
                    }
                };
                proof {
                    lemma_extends_trans(self.readings@, r1, r0);
                }
                assert forall|t: Seq<u64>| extends(t, self.readings@) implies #[trigger] exec_stmt(*s, s0, t)
                    == (unit_view(r), self@) by {
                    lemma_extends_trans(t, self.readings@, r1);
                    assert(eval_expr(**cond, s0, t) == (Ok::<ObjModel, ErrModel>(c@), s1));
                    if truthy(c@) {
                        assert(exec_stmt(**then_branch, s1, t) == (unit_view(r), self@));
                    } else {
                        match *else_branch {
                            Some(b) => {
                                assert(exec_stmt(*b, s1, t) == (unit_view(r), self@));
                            },
                            None => {},
                        }
                    }
                }
                r
            },
            Stmt::While(keyword, cond, body) => {
                loop
                    invariant
                        self.wf(),
                        *s == Stmt::While(*keyword, *cond, *body),
                        s0 == old(self)@,
                        r0 == old(self).readings@,
                        self@.scopes.len() == s0.scopes.len(),
                        self.fuel <= old(self).fuel,
                        extends(self.readings@, r0),
                        forall|t: Seq<u64>| extends(t, self.readings@) ==> #[trigger] exec_stmt(*s, s0, t)
                            == exec_while(*s, self@, t),
                    decreases self.fuel,
                {
                    let ghost si = self@;
                    let ghost ri = self.readings@;
                    let c = match self.evaluate(cond) {
                        Ok(c) => c,
                        Err(er) => {
                            proof {
                                lemma_extends_trans(self.readings@, ri, r0);
                                assert forall|t: Seq<u64>| extends(t, self.readings@) implies #[trigger] exec_stmt(*s, s0, t)
                                    == (unit_view(Err::<(), RuntimeError>(er)), self@) by {
                                    lemma_extends_trans(t, self.readings@, ri);
                                    assert(eval_expr(**cond, si, t) == (Err::<ObjModel, ErrModel>(er@), self@));
                                    assert(exec_stmt(*s, s0, t) == exec_while(*s, si, t));
                                }
                            }
                            return Err(er);
                        },
                    };
                    let ghost s1 = self@;
                    let ghost r1 = self.readings@;
                    proof {
                        lemma_extends_trans(self.readings@, ri, r0);
                    }
                    if !c.is_truthy() {
                        assert forall|t: Seq<u64>| extends(t, self.readings@) implies #[trigger] exec_stmt(*s, s0, t)
                            == (unit_view(Ok::<(), RuntimeError>(())), self@) by {
                            lemma_extends_trans(t, self.readings@, ri);
                            assert(eval_expr(**cond, si, t) == (Ok::<ObjModel, ErrModel>(c@), s1));
                            assert(exec_stmt(*s, s0, t) == exec_while(*s, si, t));
                        }
                        return Ok(());
                    }
                    if self.fuel == 0 {
                        let er = RuntimeError::new(keyword, "Loop iteration limit reached.");
                        assert forall|t: Seq<u64>| extends(t, self.readings@) implies #[trigger] exec_stmt(*s, s0, t)
                            == (unit_view(Err::<(), RuntimeError>(er)), self@) by {
                            lemma_extends_trans(t, self.readings@, ri);
                            assert(eval_expr(**cond, si, t) == (Ok::<ObjModel, ErrModel>(c@), s1));
                            assert(exec_stmt(*s, s0, t) == exec_while(*s, si, t));
                        }
                        return Err(er);
                    }
                    self.fuel = self.fuel - 1;
                    let ghost s2 = self@;
                    let r = self.execute(body);
                    proof {
                        lemma_extends_trans(self.readings@, r1, r0);
                    }
                    match r {
                        Ok(()) => {
                            assert forall|t: Seq<u64>| extends(t, self.readings@) implies #[trigger] exec_stmt(*s, s0, t)
                                == exec_while(*s, self@, t) by {
                                lemma_extends_trans(t, self.readings@, r1);
                                lemma_extends_trans(t, r1, ri);
                                assert(eval_expr(**cond, si, t) == (Ok::<ObjModel, ErrModel>(c@), s1));
                                assert(exec_stmt(**body, s2, t) == (Ok::<(), ErrModel>(()), self@));
                                assert(exec_stmt(*s, s0, t) == exec_while(*s, si, t));
                            }
                        },
                        Err(er) => {
                            assert forall|t: Seq<u64>| extends(t, self.readings@) implies #[trigger] exec_stmt(*s, s0, t)
                                == (unit_view(Err::<(), RuntimeError>(er)), self@) by {
                                lemma_extends_trans(t, self.readings@, r1);
                                lemma_extends_trans(t, r1, ri);
                                assert(eval_expr(**cond, si, t) == (Ok::<ObjModel, ErrModel>(c@), s1));
                                assert(exec_stmt(**body, s2, t) == (Err::<(), ErrModel>(er@), self@));
                                assert(exec_stmt(*s, s0, t) == exec_while(*s, si, t));
                            }
                            return Err(er);
                        },
                    }
                }
            },
        }
    }

    /// Runs a program's statements in order, stopping at the first runtime
    /// error.
    pub fn interpret(&mut self, ast: &AST) -> (r: Result<(), RuntimeError>)
        requires
            old(self).wf(),
        ensures
            final(self).wf(),
            extends(final(self).readings(), old(self).readings()),
            forall|t: Seq<u64>| extends(t, final(self).readings()) ==>
                #[trigger] run_stmts(ast.root@, 0, old(self)@, t) == (unit_view(r), final(self)@),
    {
        let ghost s0 = self@;
        let ghost r0 = self.readings@;
        let mut i: usize = 0;
        while i < ast.root.len()
            invariant
                self.wf(),
                s0 == old(self)@,
                r0 == old(self).readings@,
                i <= ast.root@.len(),
                extends(self.readings@, r0),
                forall|t: Seq<u64>| extends(t, self.readings@) ==> #[trigger] run_stmts(ast.root@, 0, s0, t)
                    == run_stmts(ast.root@, i as int, self@, t),
            decreases ast.root@.len() - i,
        {
            let ghost si = self@;
            let ghost ri = self.readings@;
            match self.execute(&ast.root[i]) {
                Ok(()) => {
                    i = i + 1;
                    proof {
                        lemma_extends_trans(self.readings@, ri, r0);
                        assert forall|t: Seq<u64>| extends(t, self.readings@) implies #[trigger] run_stmts(ast.root@, 0, s0, t)
                            == run_stmts(ast.root@, i as int, self@, t) by {
                            lemma_extends_trans(t, self.readings@, ri);
                            assert(exec_stmt(ast.root@[i - 1], si, t) == (Ok::<(), ErrModel>(()), self@));
                        }
                    }
                },
                Err(er) => {
                    proof {
                        lemma_extends_trans(self.readings@, ri, r0);
                        assert forall|t: Seq<u64>| extends(t, self.readings@) implies #[trigger] run_stmts(ast.root@, 0, s0, t)
                            == (unit_view(Err::<(), RuntimeError>(er)), self@) by {
                            lemma_extends_trans(t, self.readings@, ri);
                            assert(exec_stmt(ast.root@[i as int], si, t) == (Err::<(), ErrModel>(er@), self@));
                        }
                    }
                    return Err(er);
                },
            }
        }
        Ok(())
    }
}

} // verus!
