//! The meaning of programs: big-step evaluation of expressions and
//! execution of statements over an abstract interpreter state.
//!
//! Two inputs come from outside the program text. The native clock reads
//! the machine's time: `t` is the sequence of raw readings in nanoseconds, the k-th call
//! getting `t[k]`. And loops run on fuel: each iteration of a `while` spends
//! one unit, and a loop that finds none left stops with a runtime error.
use crate::ast::{Expr, Stmt};
use crate::environment::{env_assign, env_define, env_get, undefined_message, ScopeModel};
use crate::number::{double_difference, double_eq, double_lt, double_of_integer, double_product, double_quotient, double_sum, zero_bits, SIGN_BIT};
use crate::token::{LiteralModel, TokenModel, TokenType};
use crate::value::{arity_of, truthy, objects_equal, Callable, ErrModel, ObjModel};
use vstd::prelude::*;

verus! {

/// What a running program has built: its scope chain (innermost last), the
/// values it printed, the clock's last reading, how many readings it took,
/// and the loop iterations it may still run.
pub struct State {
    pub scopes: Seq<ScopeModel>,
    pub printed: Seq<ObjModel>,
    pub clock: u64,
    pub ticks: nat,
    pub fuel: nat,
}

pub open spec fn with_fuel(st: State, fuel: nat) -> State {
    State { fuel, ..st }
}

pub open spec fn fail<T>(token: TokenModel, message: Seq<char>) -> Result<T, ErrModel> {
    Err(ErrModel { token, message })
}

pub open spec fn num(b: u64) -> ObjModel {
    ObjModel::Literal(LiteralModel::Num(b))
}

pub open spec fn boolean(b: bool) -> ObjModel {
    ObjModel::Literal(LiteralModel::Bool(b))
}

pub open spec fn digit_char(d: nat) -> char {
    if d == 0 { '0' } else if d == 1 { '1' } else if d == 2 { '2' } else if d == 3 { '3' }
    else if d == 4 { '4' } else if d == 5 { '5' } else if d == 6 { '6' } else if d == 7 { '7' }
    else if d == 8 { '8' } else { '9' }
}

/// The decimal numeral of `n`.
pub open spec fn decimal(n: nat) -> Seq<char>
    decreases n,
{
    if n < 10 {
        seq![digit_char(n)]
    } else {
        decimal(n / 10).push(digit_char(n % 10))
    }
}

pub open spec fn arity_message(expected: nat, got: nat) -> Seq<char> {
    "Expected "@ + decimal(expected) + " arguments but got "@ + decimal(got) + "."@
}

/// The result of a unary operator on an evaluated operand.
pub open spec fn unary_value(op: TokenModel, v: ObjModel) -> Result<ObjModel, ErrModel> {
    if op.kind == TokenType::BANG {
        Ok(boolean(!truthy(v)))
    } else if op.kind == TokenType::MINUS {
        match v {
            ObjModel::Literal(LiteralModel::Num(b)) => Ok(num(b ^ SIGN_BIT)),
            _ => fail(op, "Operand must be a number."@),
        }
    } else {
        fail(op, "Unrecognized token for Unary operation."@)
    }
}

pub open spec fn both_numbers(a: ObjModel, b: ObjModel) -> bool {
    a matches ObjModel::Literal(LiteralModel::Num(_)) && b matches ObjModel::Literal(LiteralModel::Num(_))
}

pub open spec fn num_of(a: ObjModel) -> u64 {
    match a {
        ObjModel::Literal(LiteralModel::Num(x)) => x,
        _ => 0,
    }
}

/// The result of an arithmetic or comparison operator on numbers.
pub open spec fn numeric_value(k: TokenType, x: u64, y: u64) -> ObjModel {
    if k == TokenType::MINUS {
        num(double_difference(x, y))
    } else if k == TokenType::STAR {
        num(double_product(x, y))
    } else if k == TokenType::SLASH {
        num(double_quotient(x, y))
    } else if k == TokenType::GREATER {
        boolean(double_lt(y, x))
    } else if k == TokenType::GREATER_EQUAL {
        boolean(double_lt(y, x) || double_eq(x, y))
    } else if k == TokenType::LESS {
        boolean(double_lt(x, y))
    } else {
        boolean(double_lt(x, y) || double_eq(x, y))
    }
}

pub open spec fn numeric_kind(k: TokenType) -> bool {
    k == TokenType::MINUS || k == TokenType::STAR || k == TokenType::SLASH || k == TokenType::GREATER
        || k == TokenType::GREATER_EQUAL || k == TokenType::LESS || k == TokenType::LESS_EQUAL
}

/// The result of a binary operator on evaluated operands.
pub open spec fn binary_value(op: TokenModel, a: ObjModel, b: ObjModel) -> Result<ObjModel, ErrModel> {
    let k = op.kind;
    if k == TokenType::PLUS {
        match (a, b) {
            (ObjModel::Literal(LiteralModel::Num(x)), ObjModel::Literal(LiteralModel::Num(y))) => Ok(num(double_sum(x, y))),
            (ObjModel::Literal(LiteralModel::Str(x)), ObjModel::Literal(LiteralModel::Str(y))) => Ok(ObjModel::Literal(LiteralModel::Str(x + y))),
            _ => fail(op, "Operands must be two numbers or two strings."@),
        }
    } else if numeric_kind(k) {
        if !both_numbers(a, b) {
            fail(op, "Operands must be numbers."@)
        } else if k == TokenType::SLASH && zero_bits(num_of(b)) {
            fail(op, "Divide by zero error."@)
        } else {
            Ok(numeric_value(k, num_of(a), num_of(b)))
        }
    } else if k == TokenType::EQUAL_EQUAL {
        Ok(boolean(objects_equal(a, b)))
    } else if k == TokenType::BANG_EQUAL {
        Ok(boolean(!objects_equal(a, b)))
    } else {
        fail(op, "Unrecognized token for Binary operation."@)
    }
}

/// The clock's reading at a call: the raw reading, but never less than the
/// one before.
pub open spec fn clock_reading(st: State, t: Seq<u64>) -> u64 {
    let raw = if st.ticks < t.len() { t[st.ticks as int] } else { 0 };
    if raw > st.clock { raw } else { st.clock }
}

/// The milliseconds in a reading of `nanos` nanoseconds, as a number.
pub open spec fn clock_millis(nanos: u64) -> u64 {
    double_quotient(double_of_integer(nanos), double_of_integer(1_000_000))
}

/// Calling a native function whose arity matched.
pub open spec fn invoke(f: Callable, st: State, t: Seq<u64>) -> (Result<ObjModel, ErrModel>, State) {
    match f {
        Callable::Clock(_) => {
            let reading = clock_reading(st, t);
            (Ok(num(clock_millis(reading))), State { clock: reading, ticks: st.ticks + 1, ..st })
        },
    }
}

pub open spec fn arg_count(e: Expr) -> int {
    match e {
        Expr::Call(_, _, args) => args@.len() as int,
        _ => 0,
    }
}

/// Evaluates an expression: its value or the runtime error it stops at,
/// and the state after it.
pub open spec fn eval_expr(e: Expr, st: State, t: Seq<u64>) -> (Result<ObjModel, ErrModel>, State)
    decreases e, 1int, 0int,
{
    match e {
        Expr::Literal(l) => (Ok(ObjModel::Literal(l@)), st),
        Expr::Grouping(inner) => eval_expr(*inner, st, t),
        Expr::Unary(op, operand) => {
            let (v, st1) = eval_expr(*operand, st, t);
            match v {
                Ok(v) => (unary_value(op@, v), st1),
                Err(er) => (Err(er), st1),
            }
        },
        Expr::Binary(left, op, right) => {
            let (a, st1) = eval_expr(*left, st, t);
            match a {
                Err(er) => (Err(er), st1),
                Ok(a) => {
                    let (b, st2) = eval_expr(*right, st1, t);
                    match b {
                        Err(er) => (Err(er), st2),
                        Ok(b) => (binary_value(op@, a, b), st2),
                    }
                },
            }
        },
        Expr::Logical(left, op, right) => {
            let (a, st1) = eval_expr(*left, st, t);
            match a {
                Err(er) => (Err(er), st1),
                Ok(a) => if (op.token_type == TokenType::OR) == truthy(a) {
                    (Ok(a), st1)
                } else {
                    eval_expr(*right, st1, t)
                },
            }
        },
        Expr::Variable(name) => match env_get(st.scopes, name.lexeme@) {
            Some(v) => (Ok(v), st),
            None => (fail(name@, undefined_message(name.lexeme@)), st),
        },
        Expr::Assign(name, value) => {
            let (v, st1) = eval_expr(*value, st, t);
            match v {
                Err(er) => (Err(er), st1),
                Ok(v) => match env_assign(st1.scopes, name.lexeme@, v) {
                    Some(sc) => (Ok(v), State { scopes: sc, ..st1 }),
                    None => (fail(name@, undefined_message(name.lexeme@)), st1),
                },
            }
        },
        Expr::Call(callee, paren, _) => {
            let (c, st1) = eval_expr(*callee, st, t);
            match c {
                Err(er) => (Err(er), st1),
                Ok(ObjModel::Function(f)) => {
                    let (vs, st2) = eval_args(e, 0, st1, t);
                    match vs {
                        Err(er) => (Err(er), st2),
                        Ok(vs) => if vs.len() != arity_of(f) {
                            (fail(paren@, arity_message(arity_of(f), vs.len())), st2)
                        } else {
                            invoke(f, st2, t)
                        },
                    }
                },
                Ok(_) => (fail(paren@, "Can only call functions and classes."@), st1),
            }
        },
    }
}

/// Evaluates the arguments of the call `e` from the `i`-th on, left to right.
pub open spec fn eval_args(e: Expr, i: int, st: State, t: Seq<u64>) -> (Result<Seq<ObjModel>, ErrModel>, State)
    decreases e, 0int, arg_count(e) - i,
{
    match e {
        Expr::Call(_, _, args) => if 0 <= i < args@.len() {
            let (v, st1) = eval_expr(args@[i], st, t);
            match v {
                Err(er) => (Err(er), st1),
                Ok(v) => {
                    let (rest, st2) = eval_args(e, i + 1, st1, t);
                    match rest {
                        Ok(vs) => (Ok(seq![v] + vs), st2),
                        Err(er) => (Err(er), st2),
                    }
                },
            }
        } else {
            (Ok(Seq::empty()), st)
        },
        _ => (Ok(Seq::empty()), st),
    }
}

pub open spec fn block_len(s: Stmt) -> int {
    match s {
        Stmt::Block(ss) => ss@.len() as int,
        _ => 0,
    }
}

pub open spec fn unit_of(r: Result<ObjModel, ErrModel>) -> Result<(), ErrModel> {
    match r {
        Ok(_) => Ok(()),
        Err(er) => Err(er),
    }
}

/// Executes a statement: whether it completed or the runtime error it
/// stopped at, and the state after it.
pub open spec fn exec_stmt(s: Stmt, st: State, t: Seq<u64>) -> (Result<(), ErrModel>, State)
    decreases st.fuel, s, 2int, 0int,
{
    match s {
        Stmt::Expression(e) => {
            let (v, st1) = eval_expr(*e, st, t);
            (unit_of(v), with_fuel(st1, st.fuel))
        },
        Stmt::Print(e) => {
            let (v, st1) = eval_expr(*e, st, t);
            match v {
                Ok(v) => (Ok(()), State { printed: st1.printed.push(v), fuel: st.fuel, ..st1 }),
                Err(er) => (Err(er), with_fuel(st1, st.fuel)),
            }
        },
        Stmt::Var(name, init) => {
            let (v, st1) = eval_expr(*init, st, t);
            match v {
                Ok(v) => (Ok(()), State { scopes: env_define(st1.scopes, name.lexeme@, v), fuel: st.fuel, ..st1 }),
                Err(er) => (Err(er), with_fuel(st1, st.fuel)),
            }
        },
        Stmt::Block(_) => {
            let (r, st1) = exec_block(s, 0, State { scopes: st.scopes.push(Seq::empty()), ..st }, t);
            (r, State { scopes: st1.scopes.drop_last(), ..st1 })
        },
        Stmt::If(cond, then_branch, else_branch) => {
            let (c, st1) = eval_expr(*cond, st, t);
            let st1 = with_fuel(st1, st.fuel);
            match c {
                Err(er) => (Err(er), st1),
                Ok(c) => if truthy(c) {
                    exec_stmt(*then_branch, st1, t)
                } else {
                    match else_branch {
                        Some(b) => exec_stmt(*b, st1, t),
                        None => (Ok(()), st1),
                    }
                },
            }
        },
        Stmt::While(_, _, _) => exec_while(s, st, t),
    }
}

/// Runs the loop `s` from its next test of the condition.
pub open spec fn exec_while(s: Stmt, st: State, t: Seq<u64>) -> (Result<(), ErrModel>, State)
    decreases st.fuel, s, 1int, 0int,
{
    match s {
        Stmt::While(keyword, cond, body) => {
            let (c, st1) = eval_expr(*cond, st, t);
            let st1 = with_fuel(st1, st.fuel);
            match c {
                Err(er) => (Err(er), st1),
                Ok(c) => if !truthy(c) {
                    (Ok(()), st1)
                } else if st.fuel == 0 {
                    (fail(keyword@, "Loop iteration limit reached."@), st1)
                } else {
                    let (r, st2) = exec_stmt(*body, with_fuel(st1, (st.fuel - 1) as nat), t);
                    match r {
                        Err(er) => (Err(er), st2),
                        Ok(_) => if st2.fuel < st.fuel {
                            exec_while(s, st2, t)
                        } else {
                            (Ok(()), st2)
                        },
                    }
                },
            }
        },
        _ => (Ok(()), st),
    }
}

/// Runs the statements of the block `s` from the `i`-th on.
pub open spec fn exec_block(s: Stmt, i: int, st: State, t: Seq<u64>) -> (Result<(), ErrModel>, State)
    decreases st.fuel, s, 1int, block_len(s) - i,
{
    match s {
        Stmt::Block(ss) => if 0 <= i < ss@.len() {
            let (r, st1) = exec_stmt(ss@[i], st, t);
            match r {
                Err(er) => (Err(er), st1),
                Ok(_) => if st1.fuel <= st.fuel {
                    exec_block(s, i + 1, st1, t)
                } else {
                    (Ok(()), st1)
                },
            }
        } else {
            (Ok(()), st)
        },
        _ => (Ok(()), st),
    }
}

/// Runs the statements of a program from the `i`-th on, stopping at the
/// first runtime error.
pub open spec fn run_stmts(ss: Seq<Stmt>, i: int, st: State, t: Seq<u64>) -> (Result<(), ErrModel>, State)
    decreases ss.len() - i,
{
    if 0 <= i < ss.len() {
        let (r, st1) = exec_stmt(ss[i], st, t);
        match r {
            Err(er) => (Err(er), st1),
            Ok(_) => run_stmts(ss, i + 1, st1, t),
        }
    } else {
        (Ok(()), st)
    }
}

/// `t` begins with the readings `r`.
pub open spec fn extends(t: Seq<u64>, r: Seq<u64>) -> bool {
    r.len() <= t.len() && forall|i: int| 0 <= i < r.len() ==> t[i] == r[i]
}

} // verus!

verus! {

/// A call whose argument count differs from the callee's arity fails at
/// the closing parenthesis with "Expected N arguments but got M.", after
/// the callee and the arguments were evaluated.
pub proof fn lemma_arity_mismatch(e: Expr, st: State, t: Seq<u64>)
    requires
        e is Call,
        eval_expr(*e->Call_0, st, t).0 matches Ok(ObjModel::Function(_)),
        eval_args(e, 0, eval_expr(*e->Call_0, st, t).1, t).0 is Ok,
        eval_args(e, 0, eval_expr(*e->Call_0, st, t).1, t).0->Ok_0.len()
            != arity_of(eval_expr(*e->Call_0, st, t).0->Ok_0->Function_0),
    ensures
        ({
            let f = eval_expr(*e->Call_0, st, t).0->Ok_0->Function_0;
            let got = eval_args(e, 0, eval_expr(*e->Call_0, st, t).1, t).0->Ok_0.len();
            eval_expr(e, st, t).0 == fail::<ObjModel>(e->Call_1@, arity_message(arity_of(f), got))
        }),
{
}

/// Successive clock calls: the second reading (in nanoseconds) is never
/// below the first, and each call yields that reading in milliseconds.
pub proof fn lemma_clock_never_decreases(st: State, t: Seq<u64>)
    ensures
        ({
            let (a, st1) = invoke(Callable::Clock(crate::value::Clock), st, t);
            let (b, st2) = invoke(Callable::Clock(crate::value::Clock), st1, t);
            &&& st.clock <= st1.clock <= st2.clock
            &&& a == Ok::<ObjModel, ErrModel>(num(clock_millis(st1.clock)))
            &&& b == Ok::<ObjModel, ErrModel>(num(clock_millis(st2.clock)))
        }),
{
}

} // verus!
