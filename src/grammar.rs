//! The grammar, as functions from a token sequence and a position to what
//! is parsed there and the position after it, or to a parse error and the
//! position where parsing stopped.
//!
//! Precedence, loosest first: assignment (right-associative), `or`, `and`,
//! equality, comparison, addition, multiplication (each left-associative),
//! unary, call, primary.
use crate::ast::{ExprModel, StmtModel};
use crate::parser::{level_has, starts_statement, MAX_ARGUMENTS};
use crate::token::{LiteralModel, TokenModel, TokenType};
use vstd::prelude::*;

verus! {

pub struct PErr {
    pub token: TokenModel,
    pub message: Seq<char>,
}

pub type Parsed<T> = Result<(T, int), (PErr, int)>;

pub open spec fn at_end(ts: Seq<TokenModel>, p: int) -> bool {
    ts[p].kind == TokenType::EOF
}

pub open spec fn checks(ts: Seq<TokenModel>, p: int, k: TokenType) -> bool {
    !at_end(ts, p) && ts[p].kind == k
}

/// The position `q` that a part parsed from `p` ended at; parts never end
/// before they start nor past the tokens, so the fallback to `p` is never
/// taken.
pub open spec fn fwd(ts: Seq<TokenModel>, q: int, p: int) -> int {
    if p <= q <= ts.len() { q } else { p }
}

pub open spec fn error_at<T>(ts: Seq<TokenModel>, p: int, message: Seq<char>) -> Parsed<T> {
    Err((PErr { token: ts[p], message }, p))
}

/// Reads a token of kind `k` at `p`, giving the position after it.
pub open spec fn expect(ts: Seq<TokenModel>, p: int, k: TokenType, message: Seq<char>) -> Parsed<TokenModel> {
    if 0 <= p < ts.len() && checks(ts, p, k) {
        Ok((ts[p], p + 1))
    } else {
        error_at(ts, p, message)
    }
}

pub open spec fn p_expression(ts: Seq<TokenModel>, p: int) -> Parsed<ExprModel>
    decreases ts.len() - p, 100int, 0int,
{
    p_assignment(ts, p)
}

pub open spec fn p_assignment(ts: Seq<TokenModel>, p: int) -> Parsed<ExprModel>
    decreases ts.len() - p, 99int, 0int,
{
    match p_or(ts, p) {
        Err(e) => Err(e),
        Ok((lhs, p1)) => {
            let p1 = fwd(ts, p1, p);
            if 0 <= p1 < ts.len() && checks(ts, p1, TokenType::EQUAL) {
                match p_assignment(ts, p1 + 1) {
                    Err(e) => Err(e),
                    Ok((v, p2)) => match lhs {
                        ExprModel::Variable(name) => Ok((ExprModel::Assign(name, Box::new(v)), p2)),
                        _ => Err((PErr { token: ts[p1], message: "Invalid assignment target."@ }, p2)),
                    },
                }
            } else {
                Ok((lhs, p1))
            }
        },
    }
}

pub open spec fn p_or(ts: Seq<TokenModel>, p: int) -> Parsed<ExprModel>
    decreases ts.len() - p, 98int, 0int,
{
    match p_and(ts, p) {
        Err(e) => Err(e),
        Ok((e, p1)) => p_or_rest(ts, fwd(ts, p1, p), e),
    }
}

/// More `or` operands after `left`.
pub open spec fn p_or_rest(ts: Seq<TokenModel>, p: int, left: ExprModel) -> Parsed<ExprModel>
    decreases ts.len() - p, 97int, 0int,
{
    if 0 <= p < ts.len() && checks(ts, p, TokenType::OR) {
        match p_and(ts, p + 1) {
            Err(e) => Err(e),
            Ok((r, p2)) => p_or_rest(ts, fwd(ts, p2, p + 1), ExprModel::Logical(Box::new(left), ts[p], Box::new(r))),
        }
    } else {
        Ok((left, p))
    }
}

pub open spec fn p_and(ts: Seq<TokenModel>, p: int) -> Parsed<ExprModel>
    decreases ts.len() - p, 96int, 0int,
{
    match p_binary(ts, p, 0) {
        Err(e) => Err(e),
        Ok((e, p1)) => p_and_rest(ts, fwd(ts, p1, p), e),
    }
}

/// More `and` operands after `left`.
pub open spec fn p_and_rest(ts: Seq<TokenModel>, p: int, left: ExprModel) -> Parsed<ExprModel>
    decreases ts.len() - p, 95int, 0int,
{
    if 0 <= p < ts.len() && checks(ts, p, TokenType::AND) {
        match p_binary(ts, p + 1, 0) {
            Err(e) => Err(e),
            Ok((r, p2)) => p_and_rest(ts, fwd(ts, p2, p + 1), ExprModel::Logical(Box::new(left), ts[p], Box::new(r))),
        }
    } else {
        Ok((left, p))
    }
}

/// An operand of the binary level `level`: the next level, or a unary
/// expression below multiplication.
pub open spec fn p_operand(ts: Seq<TokenModel>, p: int, level: u8) -> Parsed<ExprModel>
    decreases ts.len() - p, 89 - 2 * (level as int), 1int,
{
    if level > 3 {
        error_at(ts, p, Seq::empty())
    } else if level == 3 {
        p_unary(ts, p)
    } else {
        p_binary(ts, p, (level + 1) as u8)
    }
}

pub open spec fn p_binary(ts: Seq<TokenModel>, p: int, level: u8) -> Parsed<ExprModel>
    decreases ts.len() - p, 90 - 2 * (level as int), 0int,
{
    if level > 3 {
        error_at(ts, p, Seq::empty())
    } else {
        match p_operand(ts, p, level) {
            Err(e) => Err(e),
            Ok((e, p1)) => p_binary_rest(ts, fwd(ts, p1, p), level, e),
        }
    }
}

/// More (operator of `level`, operand) pairs after `left`, folded leftwards.
pub open spec fn p_binary_rest(ts: Seq<TokenModel>, p: int, level: u8, left: ExprModel) -> Parsed<ExprModel>
    decreases ts.len() - p, 89 - 2 * (level as int), 0int,
{
    if level <= 3 && 0 <= p < ts.len() && !at_end(ts, p) && level_has(level, ts[p].kind) {
        match p_operand(ts, p + 1, level) {
            Err(e) => Err(e),
            Ok((r, p2)) => p_binary_rest(ts, fwd(ts, p2, p + 1), level, ExprModel::Binary(Box::new(left), ts[p], Box::new(r))),
        }
    } else {
        Ok((left, p))
    }
}

pub open spec fn p_unary(ts: Seq<TokenModel>, p: int) -> Parsed<ExprModel>
    decreases ts.len() - p, 80int, 0int,
{
    if 0 <= p < ts.len() && (checks(ts, p, TokenType::BANG) || checks(ts, p, TokenType::MINUS)) {
        match p_unary(ts, p + 1) {
            Err(e) => Err(e),
            Ok((r, p1)) => Ok((ExprModel::Unary(ts[p], Box::new(r)), p1)),
        }
    } else {
        p_call(ts, p)
    }
}

pub open spec fn p_call(ts: Seq<TokenModel>, p: int) -> Parsed<ExprModel>
    decreases ts.len() - p, 79int, 0int,
{
    match p_primary(ts, p) {
        Err(e) => Err(e),
        Ok((e, p1)) => p_call_rest(ts, fwd(ts, p1, p), e),
    }
}

/// More argument lists after `callee`.
pub open spec fn p_call_rest(ts: Seq<TokenModel>, p: int, callee: ExprModel) -> Parsed<ExprModel>
    decreases ts.len() - p, 78int, 0int,
{
    if 0 <= p < ts.len() && checks(ts, p, TokenType::LEFT_PAREN) {
        match p_finish_call(ts, p + 1, callee) {
            Err(e) => Err(e),
            Ok((e, p2)) => p_call_rest(ts, fwd(ts, p2, p + 1), e),
        }
    } else {
        Ok((callee, p))
    }
}

/// The arguments and the closing parenthesis of a call, `(` having been read.
pub open spec fn p_finish_call(ts: Seq<TokenModel>, p: int, callee: ExprModel) -> Parsed<ExprModel>
    decreases ts.len() - p, 110int, 0int,
{
    let args = if 0 <= p < ts.len() && checks(ts, p, TokenType::RIGHT_PAREN) {
        Ok((Seq::empty(), p))
    } else {
        p_arguments(ts, p, Seq::empty())
    };
    match args {
        Err(e) => Err(e),
        Ok((args, p1)) => {
            let p1 = fwd(ts, p1, p);
            if 0 <= p1 < ts.len() && checks(ts, p1, TokenType::RIGHT_PAREN) {
                Ok((ExprModel::Call(Box::new(callee), ts[p1], args), p1 + 1))
            } else {
                error_at(ts, p1, "Expect ')' after arguments."@)
            }
        },
    }
}

/// Comma-separated arguments from `p` on, after the ones in `args`.
pub open spec fn p_arguments(ts: Seq<TokenModel>, p: int, args: Seq<ExprModel>) -> Parsed<Seq<ExprModel>>
    decreases ts.len() - p, 109int, 0int,
{
    if args.len() >= MAX_ARGUMENTS {
        error_at(ts, p, "Cannot have more than 8 arguments."@)
    } else {
        match p_expression(ts, p) {
            Err(e) => Err(e),
            Ok((a, p1)) => {
                let p1 = fwd(ts, p1, p);
                if 0 <= p1 < ts.len() && checks(ts, p1, TokenType::COMMA) {
                    p_arguments(ts, p1 + 1, args.push(a))
                } else {
                    Ok((args.push(a), p1))
                }
            },
        }
    }
}

pub open spec fn is_literal_kind(k: TokenType) -> bool {
    k == TokenType::FALSE || k == TokenType::TRUE || k == TokenType::NIL || k == TokenType::NUMBER
        || k == TokenType::STRING
}

pub open spec fn p_primary(ts: Seq<TokenModel>, p: int) -> Parsed<ExprModel>
    decreases ts.len() - p, 77int, 0int,
{
    if !(0 <= p < ts.len()) {
        Err((PErr { token: ts[p], message: Seq::empty() }, p))
    } else if !at_end(ts, p) && is_literal_kind(ts[p].kind) {
        Ok((ExprModel::Literal(ts[p].literal), p + 1))
    } else if checks(ts, p, TokenType::IDENTIFIER) {
        Ok((ExprModel::Variable(ts[p]), p + 1))
    } else if checks(ts, p, TokenType::LEFT_PAREN) {
        match p_expression(ts, p + 1) {
            Err(e) => Err(e),
            Ok((e, p1)) => match expect(ts, fwd(ts, p1, p + 1), TokenType::RIGHT_PAREN, "Expect ')' after expression."@) {
                Err(er) => Err(er),
                Ok((_, p2)) => Ok((ExprModel::Grouping(Box::new(e)), p2)),
            },
        }
    } else {
        error_at(ts, p, "Expect expression."@)
    }
}

pub open spec fn p_declaration(ts: Seq<TokenModel>, p: int) -> Parsed<StmtModel>
    decreases ts.len() - p, 300int, 0int,
{
    if !(0 <= p < ts.len()) {
        error_at(ts, p, Seq::empty())
    } else {
        let r = if checks(ts, p, TokenType::VAR) {
            p_var_declaration(ts, p + 1)
        } else {
            p_statement(ts, p)
        };
        match r {
            Ok(x) => Ok(x),
            Err((e, q)) => Err((e, p_synchronize(ts, q))),
        }
    }
}

/// Where parsing resumes after an error at `q`: past the next `;`, or at a
/// token that begins a statement, or at the end.
pub open spec fn p_synchronize(ts: Seq<TokenModel>, q: int) -> int {
    sync_from(ts, if 0 <= q < ts.len() && !at_end(ts, q) { q + 1 } else { q })
}

pub open spec fn sync_from(ts: Seq<TokenModel>, q: int) -> int
    decreases ts.len() - q,
{
    if !(0 < q < ts.len()) || at_end(ts, q) {
        q
    } else if ts[q - 1].kind == TokenType::SEMICOLON || starts_statement(ts[q].kind) {
        q
    } else {
        sync_from(ts, q + 1)
    }
}

/// `var` having been read: a name, an optional initializer (nil if none), `;`.
pub open spec fn p_var_declaration(ts: Seq<TokenModel>, p: int) -> Parsed<StmtModel>
    decreases ts.len() - p, 290int, 0int,
{
    match expect(ts, p, TokenType::IDENTIFIER, "Expect variable name."@) {
        Err(e) => Err(e),
        Ok((name, p1)) => {
            let init = if 0 <= p1 < ts.len() && checks(ts, p1, TokenType::EQUAL) {
                p_expression(ts, p1 + 1)
            } else {
                Ok((ExprModel::Literal(LiteralModel::Nil), p1))
            };
            match init {
                Err(e) => Err(e),
                Ok((e, p2)) => match expect(ts, fwd(ts, p2, p1), TokenType::SEMICOLON, "Expect ';' after value."@) {
                    Err(er) => Err(er),
                    Ok((_, p3)) => Ok((StmtModel::Var(name, e), p3)),
                },
            }
        },
    }
}

pub open spec fn p_statement(ts: Seq<TokenModel>, p: int) -> Parsed<StmtModel>
    decreases ts.len() - p, 280int, 0int,
{
    if !(0 <= p < ts.len()) {
        error_at(ts, p, Seq::empty())
    } else if checks(ts, p, TokenType::FOR) {
        p_for(ts, p + 1, ts[p])
    } else if checks(ts, p, TokenType::IF) {
        p_if(ts, p + 1)
    } else if checks(ts, p, TokenType::PRINT) {
        p_print(ts, p + 1)
    } else if checks(ts, p, TokenType::WHILE) {
        p_while(ts, p + 1, ts[p])
    } else if checks(ts, p, TokenType::LEFT_BRACE) {
        match p_block(ts, p + 1) {
            Err(e) => Err(e),
            Ok((ss, q)) => Ok((StmtModel::Block(ss), q)),
        }
    } else {
        p_expression_statement(ts, p)
    }
}

pub open spec fn some_stmt(r: Parsed<StmtModel>) -> Parsed<Option<StmtModel>> {
    match r {
        Ok((s, q)) => Ok((Some(s), q)),
        Err(e) => Err(e),
    }
}

pub open spec fn some_expr(r: Parsed<ExprModel>) -> Parsed<Option<ExprModel>> {
    match r {
        Ok((e, q)) => Ok((Some(e), q)),
        Err(e) => Err(e),
    }
}

/// The lowering of `for`: the body, then the increment if any, in a
/// `While` on the condition (`true` if none), after the initializer if any.
pub open spec fn lower_for(
    keyword: TokenModel,
    init: Option<StmtModel>,
    cond: Option<ExprModel>,
    incr: Option<ExprModel>,
    body: StmtModel,
) -> StmtModel {
    let body = match incr {
        Some(i) => StmtModel::Block(seq![body, StmtModel::Expression(i)]),
        None => body,
    };
    let cond = match cond {
        Some(c) => c,
        None => ExprModel::Literal(LiteralModel::Bool(true)),
    };
    let lowered = StmtModel::While(keyword, cond, Box::new(body));
    match init {
        Some(s) => StmtModel::Block(seq![s, lowered]),
        None => lowered,
    }
}

/// `for` having been read.
pub open spec fn p_for(ts: Seq<TokenModel>, p: int, keyword: TokenModel) -> Parsed<StmtModel>
    decreases ts.len() - p, 320int, 0int,
{
    match expect(ts, p, TokenType::LEFT_PAREN, "Expect '(' after 'for'."@) {
        Err(e) => Err(e),
        Ok((_, p1)) => {
            let init = if 0 <= p1 < ts.len() && checks(ts, p1, TokenType::SEMICOLON) {
                Ok((None, p1 + 1))
            } else if 0 <= p1 < ts.len() && checks(ts, p1, TokenType::VAR) {
                some_stmt(p_var_declaration(ts, p1 + 1))
            } else {
                some_stmt(p_expression_statement(ts, p1))
            };
            match init {
                Err(e) => Err(e),
                Ok((init, p2)) => {
                    let p2 = fwd(ts, p2, p1);
                    let cond = if !checks(ts, p2, TokenType::SEMICOLON) {
                        some_expr(p_expression(ts, p2))
                    } else {
                        Ok((None, p2))
                    };
                    match cond {
                        Err(e) => Err(e),
                        Ok((cond, p3)) => match expect(ts, fwd(ts, p3, p2), TokenType::SEMICOLON, "Expect ';' after loop condition."@) {
                            Err(e) => Err(e),
                            Ok((_, p4)) => {
                                let incr = if !checks(ts, p4, TokenType::RIGHT_PAREN) {
                                    some_expr(p_expression(ts, p4))
                                } else {
                                    Ok((None, p4))
                                };
                                match incr {
                                    Err(e) => Err(e),
                                    Ok((incr, p5)) => match expect(ts, fwd(ts, p5, p4), TokenType::RIGHT_PAREN, "Expect ')' after for clauses."@) {
                                        Err(e) => Err(e),
                                        Ok((_, p6)) => match p_statement(ts, p6) {
                                            Err(e) => Err(e),
                                            Ok((body, p7)) => Ok((lower_for(keyword, init, cond, incr, body), p7)),
                                        },
                                    },
                                }
                            },
                        },
                    }
                },
            }
        },
    }
}

/// `if` having been read.
pub open spec fn p_if(ts: Seq<TokenModel>, p: int) -> Parsed<StmtModel>
    decreases ts.len() - p, 320int, 0int,
{
    match expect(ts, p, TokenType::LEFT_PAREN, "Expect '(' after 'if'."@) {
        Err(e) => Err(e),
        Ok((_, p1)) => match p_expression(ts, p1) {
            Err(e) => Err(e),
            Ok((c, p2)) => match expect(ts, fwd(ts, p2, p1), TokenType::RIGHT_PAREN, "Expect ')' after if condition."@) {
                Err(e) => Err(e),
                Ok((_, p3)) => match p_statement(ts, p3) {
                    Err(e) => Err(e),
                    Ok((then_branch, p4)) => {
                        let p4 = fwd(ts, p4, p3);
                        if 0 <= p4 < ts.len() && checks(ts, p4, TokenType::ELSE) {
                            match p_statement(ts, p4 + 1) {
                                Err(e) => Err(e),
                                Ok((else_branch, p5)) => Ok((StmtModel::If(c, Box::new(then_branch), Some(Box::new(else_branch))), p5)),
                            }
                        } else {
                            Ok((StmtModel::If(c, Box::new(then_branch), None), p4))
                        }
                    },
                },
            },
        },
    }
}

/// `print` having been read.
pub open spec fn p_print(ts: Seq<TokenModel>, p: int) -> Parsed<StmtModel>
    decreases ts.len() - p, 320int, 0int,
{
    match p_expression(ts, p) {
        Err(e) => Err(e),
        Ok((e, p1)) => match expect(ts, fwd(ts, p1, p), TokenType::SEMICOLON, "Expect ';' after value."@) {
            Err(er) => Err(er),
            Ok((_, p2)) => Ok((StmtModel::Print(e), p2)),
        },
    }
}

/// `while` having been read.
pub open spec fn p_while(ts: Seq<TokenModel>, p: int, keyword: TokenModel) -> Parsed<StmtModel>
    decreases ts.len() - p, 320int, 0int,
{
    match expect(ts, p, TokenType::LEFT_PAREN, "Expect '(' after 'while'."@) {
        Err(e) => Err(e),
        Ok((_, p1)) => match p_expression(ts, p1) {
            Err(e) => Err(e),
            Ok((c, p2)) => match expect(ts, fwd(ts, p2, p1), TokenType::RIGHT_PAREN, "Expect ')' after condition."@) {
                Err(e) => Err(e),
                Ok((_, p3)) => match p_statement(ts, p3) {
                    Err(e) => Err(e),
                    Ok((body, p4)) => Ok((StmtModel::While(keyword, c, Box::new(body)), p4)),
                },
            },
        },
    }
}

/// `{` having been read: declarations up to the closing `}`.
pub open spec fn p_block(ts: Seq<TokenModel>, p: int) -> Parsed<Seq<StmtModel>>
    decreases ts.len() - p, 330int, 0int,
{
    p_block_items(ts, p, Seq::empty())
}

pub open spec fn p_block_items(ts: Seq<TokenModel>, p: int, items: Seq<StmtModel>) -> Parsed<Seq<StmtModel>>
    decreases ts.len() - p, 325int, 0int,
{
    if !(0 <= p < ts.len()) {
        error_at(ts, p, Seq::empty())
    } else if !checks(ts, p, TokenType::RIGHT_BRACE) && !at_end(ts, p) {
        match p_declaration(ts, p) {
            Err(e) => Err(e),
            Ok((s, q)) => if p < q <= ts.len() {
                p_block_items(ts, q, items.push(s))
            } else {
                error_at(ts, p, Seq::empty())
            },
        }
    } else {
        match expect(ts, p, TokenType::RIGHT_BRACE, "Expect '}' after block."@) {
            Err(e) => Err(e),
            Ok((_, q)) => Ok((items, q)),
        }
    }
}

pub open spec fn p_expression_statement(ts: Seq<TokenModel>, p: int) -> Parsed<StmtModel>
    decreases ts.len() - p, 270int, 0int,
{
    match p_expression(ts, p) {
        Err(e) => Err(e),
        Ok((e, p1)) => match expect(ts, fwd(ts, p1, p), TokenType::SEMICOLON, "Expect ';' after expression."@) {
            Err(er) => Err(er),
            Ok((_, p2)) => Ok((StmtModel::Expression(e), p2)),
        },
    }
}

/// Declarations from `p` to the end, each error recorded and skipped past.
pub open spec fn p_program(ts: Seq<TokenModel>, p: int, stmts: Seq<StmtModel>, errs: Seq<PErr>) -> (Seq<StmtModel>, Seq<PErr>)
    decreases ts.len() - p,
{
    if !(0 <= p < ts.len()) || at_end(ts, p) {
        (stmts, errs)
    } else {
        match p_declaration(ts, p) {
            Ok((s, q)) => if p < q <= ts.len() {
                p_program(ts, q, stmts.push(s), errs)
            } else {
                (stmts.push(s), errs)
            },
            Err((e, q)) => if p < q <= ts.len() {
                p_program(ts, q, stmts, errs.push(e))
            } else {
                (stmts, errs.push(e))
            },
        }
    }
}

/// A whole token sequence: the program, or every parse error in order.
pub open spec fn parse_spec(ts: Seq<TokenModel>) -> Result<Seq<StmtModel>, Seq<PErr>> {
    let (stmts, errs) = p_program(ts, 0, Seq::empty(), Seq::empty());
    if errs.len() == 0 {
        Ok(stmts)
    } else {
        Err(errs)
    }
}

} // verus!

