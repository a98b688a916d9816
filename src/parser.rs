//! The parser: recursive descent over the token sequence, one function per
//! grammar level, loosest binding first.
//!
//! Each parsing function is proved to return what the grammar in `grammar`
//! gives at its position, and to stop where the grammar stops.
//!
//! Error policy: a parse error inside a declaration is recorded, the parser
//! skips to the next statement boundary and goes on; `parse` reports every
//! error it met, in source order, and returns a program only when there was
//! none.
use crate::ast::{expr_model, stmt_model, stmts_model, Expr, ExprModel, Stmt, StmtModel, AST};
use crate::grammar;
use crate::grammar::{
    expect, is_literal_kind, lower_for, p_and, p_and_rest, p_arguments, p_assignment, p_binary, p_binary_rest,
    p_block, p_block_items, p_call, p_call_rest, p_declaration, p_expression, p_expression_statement,
    p_finish_call, p_for, p_if, p_operand, p_or, p_or_rest, p_primary, p_print, p_program, p_statement,
    p_synchronize, p_unary, p_var_declaration, p_while, parse_spec, sync_from, PErr, Parsed,
};
use crate::scanner::tokens_view;
use crate::token::{copy_literal, Literal, Token, TokenModel, TokenType};
use vstd::prelude::*;

verus! {

/// The largest number of arguments that a call may pass.
pub const MAX_ARGUMENTS: usize = 8;

/// A grammar violation at a token.
pub struct ParseError {
    pub token: Token,
    pub message: String,
}

impl ParseError {
    pub fn new(token: &Token, message: &str) -> (r: ParseError)
        ensures
            r.token@ == token@,
            r.message@ == message@,
    {
        ParseError { token: token.duplicate(), message: message.to_owned() }
    }
}

/// A token sequence as the scanner hands it over: not empty, and ended by
/// the end marker.
pub open spec fn ends_with_eof(ts: Seq<TokenModel>) -> bool {
    ts.len() > 0 && ts.last().kind == TokenType::EOF
}

/// The operators of the left-associative binary levels: equality (0),
/// comparison (1), addition (2), multiplication (3).
pub open spec fn level_has(level: u8, k: TokenType) -> bool {
    if level == 0 {
        k == TokenType::BANG_EQUAL || k == TokenType::EQUAL_EQUAL
    } else if level == 1 {
        k == TokenType::GREATER || k == TokenType::GREATER_EQUAL || k == TokenType::LESS
            || k == TokenType::LESS_EQUAL
    } else if level == 2 {
        k == TokenType::MINUS || k == TokenType::PLUS
    } else {
        k == TokenType::SLASH || k == TokenType::STAR
    }
}

fn level_has_exec(level: u8, k: TokenType) -> (r: bool)
    ensures
        r == level_has(level, k),
{
    if level == 0 {
        k == TokenType::BANG_EQUAL || k == TokenType::EQUAL_EQUAL
    } else if level == 1 {
        k == TokenType::GREATER || k == TokenType::GREATER_EQUAL || k == TokenType::LESS
            || k == TokenType::LESS_EQUAL
    } else if level == 2 {
        k == TokenType::MINUS || k == TokenType::PLUS
    } else {
        k == TokenType::SLASH || k == TokenType::STAR
    }
}

fn is_literal_kind_exec(k: TokenType) -> (r: bool)
    ensures
        r == is_literal_kind(k),
{
    k == TokenType::FALSE || k == TokenType::TRUE || k == TokenType::NIL || k == TokenType::NUMBER
        || k == TokenType::STRING
}

/// Tokens at which a statement or declaration begins.
pub open spec fn starts_statement(k: TokenType) -> bool {
    k == TokenType::CLASS || k == TokenType::FUN || k == TokenType::VAR || k == TokenType::FOR
        || k == TokenType::IF || k == TokenType::WHILE || k == TokenType::PRINT
        || k == TokenType::RETURN
}

pub open spec fn perr_view(e: ParseError) -> PErr {
    PErr { token: e.token@, message: e.message@ }
}

pub open spec fn errors_view(v: Seq<ParseError>) -> Seq<PErr> {
    Seq::new(v.len(), |i: int| perr_view(v[i]))
}

pub open spec fn exprs_model(v: Seq<Expr>) -> Seq<ExprModel> {
    Seq::new(v.len(), |i: int| expr_model(v[i]))
}

/// `r`, with the parser left at `cur`, is what the grammar gives.
pub open spec fn expr_result(r: Result<Box<Expr>, ParseError>, g: Parsed<ExprModel>, cur: int) -> bool {
    match g {
        Ok((m, q)) => r is Ok && expr_model(*r->Ok_0) == m && cur == q,
        Err((e, q)) => r is Err && perr_view(r->Err_0) == e && cur == q,
    }
}

pub open spec fn args_result(r: Result<Vec<Expr>, ParseError>, g: Parsed<Seq<ExprModel>>, cur: int) -> bool {
    match g {
        Ok((m, q)) => r is Ok && exprs_model(r->Ok_0@) == m && cur == q,
        Err((e, q)) => r is Err && perr_view(r->Err_0) == e && cur == q,
    }
}

pub open spec fn stmt_result(r: Result<Stmt, ParseError>, g: Parsed<StmtModel>, cur: int) -> bool {
    match g {
        Ok((m, q)) => r is Ok && stmt_model(r->Ok_0) == m && cur == q,
        Err((e, q)) => r is Err && perr_view(r->Err_0) == e && cur == q,
    }
}

pub open spec fn stmts_result(r: Result<Vec<Stmt>, ParseError>, g: Parsed<Seq<StmtModel>>, cur: int) -> bool {
    match g {
        Ok((m, q)) => r is Ok && stmts_model(r->Ok_0@) == m && cur == q,
        Err((e, q)) => r is Err && perr_view(r->Err_0) == e && cur == q,
    }
}

pub open spec fn opt_stmt_model(o: Option<Stmt>) -> Option<StmtModel> {
    match o {
        Some(s) => Some(stmt_model(s)),
        None => None,
    }
}

pub open spec fn opt_expr_model(o: Option<Box<Expr>>) -> Option<ExprModel> {
    match o {
        Some(e) => Some(expr_model(*e)),
        None => None,
    }
}

pub struct Parser {
    tokens: Vec<Token>,
    current: usize,
}

impl Parser {
    pub closed spec fn toks(&self) -> Seq<TokenModel> {
        tokens_view(self.tokens@)
    }

    pub closed spec fn wf(&self) -> bool {
        &&& self.tokens@.len() > 0
        &&& self.toks().len() == self.tokens@.len()
        &&& self.toks().last().kind == TokenType::EOF
        &&& self.current < self.tokens@.len()
    }

    pub closed spec fn rem(&self) -> int {
        self.tokens@.len() - self.current
    }

    pub closed spec fn position(&self) -> int {
        self.current as int
    }

    pub closed spec fn at_end(&self) -> bool {
        grammar::at_end(self.toks(), self.current as int)
    }

    pub closed spec fn checks(&self, k: TokenType) -> bool {
        grammar::checks(self.toks(), self.current as int, k)
    }

    /// Same tokens, cursor not moved back; moved forward if `moved`.
    pub closed spec fn follows(&self, o: &Parser, moved: bool) -> bool {
        &&& self.wf()
        &&& self.tokens@ == o.tokens@
        &&& self.current >= o.current
        &&& (moved ==> self.current > o.current)
    }

    pub fn new(tokens: Vec<Token>) -> (r: Parser)
        requires
            ends_with_eof(tokens_view(tokens@)),
        ensures
            r.wf(),
            r.position() == 0,
            r.toks() == tokens_view(tokens@),
    {
        Parser { tokens, current: 0 }
    }

    /// Parses the whole token sequence: the program, or every parse error in
    /// source order, as `parse_spec` gives them.
    pub fn parse(&mut self) -> (r: Result<AST, Vec<ParseError>>)
        requires
            old(self).wf(),
            old(self).position() == 0,
        ensures
            final(self).follows(old(self), false),
            r is Ok <==> parse_spec(old(self).toks()) is Ok,
            parse_spec(old(self).toks()) matches Ok(m) ==> (r is Ok && stmts_model(r->Ok_0.root@) == m),
            parse_spec(old(self).toks()) matches Err(es) ==> (r is Err && errors_view(r->Err_0@) == es),
            r is Err ==> r->Err_0@.len() > 0,
    {
        let (statements, errors) = self.program(Vec::new(), Vec::new());
        proof {
            assert(stmts_model(Seq::<Stmt>::empty()) =~= Seq::<StmtModel>::empty());
            assert(errors_view(Seq::<ParseError>::empty()) =~= Seq::<PErr>::empty());
        }
        if errors.len() == 0 {
            Ok(AST { root: statements })
        } else {
            Err(errors)
        }
    }

    /// Declarations from the cursor to the end, after `statements` and
    /// `errors`.
    fn program(&mut self, statements: Vec<Stmt>, errors: Vec<ParseError>) -> (r: (Vec<Stmt>, Vec<ParseError>))
        requires
            old(self).wf(),
        ensures
            final(self).follows(old(self), false),
            ({
                let g = p_program(old(self).toks(), old(self).position(), stmts_model(statements@), errors_view(errors@));
                stmts_model(r.0@) == g.0 && errors_view(r.1@) == g.1
            }),
        decreases old(self).rem(),
    {
        if self.is_at_end() {
            return (statements, errors);
        }
        let ghost sm = stmts_model(statements@);
        let ghost em = errors_view(errors@);
        let mut statements = statements;
        let mut errors = errors;
        match self.declaration() {
            Ok(s) => {
                statements.push(s);
                assert(stmts_model(statements@) =~= sm.push(stmt_model(s)));
            },
            Err(e) => {
                errors.push(e);
                assert(errors_view(errors@) =~= em.push(perr_view(e)));
            },
        }
        self.program(statements, errors)
    }

    #[verifier::spinoff_prover]
    fn declaration(&mut self) -> (r: Result<Stmt, ParseError>)
        requires
            old(self).wf(),
        ensures
            final(self).follows(old(self), r is Ok || !old(self).at_end()),
            stmt_result(r, p_declaration(old(self).toks(), old(self).position()), final(self).position()),
        decreases old(self).rem(), 300int, 0int,
    {
        let result = if self.match_one(TokenType::VAR) {
            self.var_declaration()
        } else {
            self.statement()
        };
        match result {
            Ok(s) => Ok(s),
            Err(e) => {
                self.synchronize();
                Err(e)
            },
        }
    }

    /// `var` has been read.
    #[verifier::spinoff_prover]
    #[verifier::rlimit(100)]
    fn var_declaration(&mut self) -> (r: Result<Stmt, ParseError>)
        requires
            old(self).wf(),
        ensures
            final(self).follows(old(self), r is Ok),
            stmt_result(r, p_var_declaration(old(self).toks(), old(self).position()), final(self).position()),
        decreases old(self).rem(), 290int, 0int,
    {
        let name = match self.consume_token(TokenType::IDENTIFIER, "Expect variable name.") {
            Ok(t) => t,
            Err(e) => return Err(e),
        };
        let initializer = if self.match_one(TokenType::EQUAL) {
            match self.expression() {
                Ok(e) => e,
                Err(e) => return Err(e),
            }
        } else {
            Box::new(Expr::Literal(Literal::Nil))
        };
        if let Err(e) = self.consume_token(TokenType::SEMICOLON, "Expect ';' after value.") {
            return Err(e);
        }
        Ok(Stmt::Var(name, initializer))
    }

    #[verifier::spinoff_prover]
    #[verifier::rlimit(100)]
    fn statement(&mut self) -> (r: Result<Stmt, ParseError>)
        requires
            old(self).wf(),
        ensures
            final(self).follows(old(self), r is Ok),
            stmt_result(r, p_statement(old(self).toks(), old(self).position()), final(self).position()),
        decreases old(self).rem(), 280int, 0int,
    {
        if self.match_one(TokenType::FOR) {
            let keyword = self.previous().duplicate();
            return self.for_statement(keyword);
        }
        if self.match_one(TokenType::IF) {
            return self.if_statement();
        }
        if self.match_one(TokenType::PRINT) {
            return self.print_statement();
        }
        if self.match_one(TokenType::WHILE) {
            let keyword = self.previous().duplicate();
            return self.while_statement(keyword);
        }
        if self.match_one(TokenType::LEFT_BRACE) {
            let statements = match self.block() {
                Ok(ss) => ss,
                Err(e) => return Err(e),
            };
            let r = Stmt::Block(statements);
            assert(stmt_model(r) == StmtModel::Block(stmts_model(statements@))) by {
                if let StmtModel::Block(m) = stmt_model(r) {
                    assert(m =~= stmts_model(statements@));
                }
            }
            return Ok(r);
        }
        self.expression_statement()
    }

    /// `for` has been read. The loop is lowered as `lower_for` says.
    #[verifier::spinoff_prover]
    #[verifier::rlimit(100)]
    fn for_statement(&mut self, keyword: Token) -> (r: Result<Stmt, ParseError>)
        requires
            old(self).wf(),
        ensures
            final(self).follows(old(self), r is Ok),
            stmt_result(r, p_for(old(self).toks(), old(self).position(), keyword@), final(self).position()),
        decreases old(self).rem(), 320int, 0int,
    {
        if let Err(e) = self.consume_token(TokenType::LEFT_PAREN, "Expect '(' after 'for'.") {
            return Err(e);
        }
        let maybe_initializer = if self.match_one(TokenType::SEMICOLON) {
            None
        } else if self.match_one(TokenType::VAR) {
            match self.var_declaration() {
                Ok(s) => Some(s),
                Err(e) => return Err(e),
            }
        } else {
            match self.expression_statement() {
                Ok(s) => Some(s),
                Err(e) => return Err(e),
            }
        };
        let maybe_condition = if !self.check(TokenType::SEMICOLON) {
            match self.expression() {
                Ok(c) => Some(c),
                Err(e) => return Err(e),
            }
        } else {
            None
        };
        if let Err(e) = self.consume_token(TokenType::SEMICOLON, "Expect ';' after loop condition.") {
            return Err(e);
        }
        let maybe_increment = if !self.check(TokenType::RIGHT_PAREN) {
            match self.expression() {
                Ok(i) => Some(i),
                Err(e) => return Err(e),
            }
        } else {
            None
        };
        if let Err(e) = self.consume_token(TokenType::RIGHT_PAREN, "Expect ')' after for clauses.") {
            return Err(e);
        }
        let body = match self.statement() {
            Ok(b) => b,
            Err(e) => return Err(e),
        };
        let r = lower(keyword, maybe_initializer, maybe_condition, maybe_increment, body);
        Ok(r)
    }

    /// `if` has been read.
    #[verifier::spinoff_prover]
    fn if_statement(&mut self) -> (r: Result<Stmt, ParseError>)
        requires
            old(self).wf(),
        ensures
            final(self).follows(old(self), r is Ok),
            stmt_result(r, p_if(old(self).toks(), old(self).position()), final(self).position()),
        decreases old(self).rem(), 320int, 0int,
    {
        if let Err(e) = self.consume_token(TokenType::LEFT_PAREN, "Expect '(' after 'if'.") {
            return Err(e);
        }
        let condition = match self.expression() {
            Ok(c) => c,
            Err(e) => return Err(e),
        };
        if let Err(e) = self.consume_token(TokenType::RIGHT_PAREN, "Expect ')' after if condition.") {
            return Err(e);
        }
        let then_branch = match self.statement() {
            Ok(s) => s,
            Err(e) => return Err(e),
        };
        if self.match_one(TokenType::ELSE) {
            let else_branch = match self.statement() {
                Ok(s) => s,
                Err(e) => return Err(e),
            };
            Ok(Stmt::If(condition, Box::new(then_branch), Some(Box::new(else_branch))))
        } else {
            Ok(Stmt::If(condition, Box::new(then_branch), None))
        }
    }

    /// `print` has been read.
    #[verifier::spinoff_prover]
    fn print_statement(&mut self) -> (r: Result<Stmt, ParseError>)
        requires
            old(self).wf(),
        ensures
            final(self).follows(old(self), r is Ok),
            stmt_result(r, p_print(old(self).toks(), old(self).position()), final(self).position()),
        decreases old(self).rem(), 320int, 0int,
    {
        let value = match self.expression() {
            Ok(v) => v,
            Err(e) => return Err(e),
        };
        if let Err(e) = self.consume_token(TokenType::SEMICOLON, "Expect ';' after value.") {
            return Err(e);
        }
        Ok(Stmt::Print(value))
    }

    /// `while` has been read.
    #[verifier::spinoff_prover]
    fn while_statement(&mut self, keyword: Token) -> (r: Result<Stmt, ParseError>)
        requires
            old(self).wf(),
        ensures
            final(self).follows(old(self), r is Ok),
            stmt_result(r, p_while(old(self).toks(), old(self).position(), keyword@), final(self).position()),
        decreases old(self).rem(), 320int, 0int,
    {
        if let Err(e) = self.consume_token(TokenType::LEFT_PAREN, "Expect '(' after 'while'.") {
            return Err(e);
        }
        let condition = match self.expression() {
            Ok(c) => c,
            Err(e) => return Err(e),
        };
        if let Err(e) = self.consume_token(TokenType::RIGHT_PAREN, "Expect ')' after condition.") {
            return Err(e);
        }
        let body = match self.statement() {
            Ok(b) => b,
            Err(e) => return Err(e),
        };
        Ok(Stmt::While(keyword, condition, Box::new(body)))
    }

    /// `{` has been read: the declarations up to the closing `}`.
    fn block(&mut self) -> (r: Result<Vec<Stmt>, ParseError>)
        requires
            old(self).wf(),
        ensures
            final(self).follows(old(self), r is Ok),
            stmts_result(r, p_block(old(self).toks(), old(self).position()), final(self).position()),
        decreases old(self).rem(), 330int, 0int,
    {
        assert(stmts_model(Seq::<Stmt>::empty()) =~= Seq::<StmtModel>::empty());
        self.block_items(Vec::new())
    }

    /// Declarations up to the closing `}`, after `items`.
    #[verifier::spinoff_prover]
    fn block_items(&mut self, items: Vec<Stmt>) -> (r: Result<Vec<Stmt>, ParseError>)
        requires
            old(self).wf(),
        ensures
            final(self).follows(old(self), r is Ok),
            stmts_result(r, p_block_items(old(self).toks(), old(self).position(), stmts_model(items@)), final(self).position()),
        decreases old(self).rem(), 325int, 0int,
    {
        if !self.check(TokenType::RIGHT_BRACE) && !self.is_at_end() {
            let s = match self.declaration() {
                Ok(s) => s,
                Err(e) => return Err(e),
            };
            let ghost im = stmts_model(items@);
            let mut items = items;
            items.push(s);
            assert(stmts_model(items@) =~= im.push(stmt_model(s)));
            return self.block_items(items);
        }
        if let Err(e) = self.consume_token(TokenType::RIGHT_BRACE, "Expect '}' after block.") {
            return Err(e);
        }
        Ok(items)
    }

    #[verifier::spinoff_prover]
    fn expression_statement(&mut self) -> (r: Result<Stmt, ParseError>)
        requires
            old(self).wf(),
        ensures
            final(self).follows(old(self), r is Ok),
            stmt_result(r, p_expression_statement(old(self).toks(), old(self).position()), final(self).position()),
        decreases old(self).rem(), 270int, 0int,
    {
        let expr = match self.expression() {
            Ok(e) => e,
            Err(e) => return Err(e),
        };
        if let Err(e) = self.consume_token(TokenType::SEMICOLON, "Expect ';' after expression.") {
            return Err(e);
        }
        Ok(Stmt::Expression(expr))
    }

    /// An expression at the cursor, as the grammar's precedence ladder reads it.
    pub fn expression(&mut self) -> (r: Result<Box<Expr>, ParseError>)
        requires
            old(self).wf(),
        ensures
            final(self).follows(old(self), r is Ok),
            expr_result(r, p_expression(old(self).toks(), old(self).position()), final(self).position()),
        decreases old(self).rem(), 100int, 0int,
    {
        self.assignment()
    }

    /// Right-associative; the target must be a bare variable.
    #[verifier::spinoff_prover]
    #[verifier::rlimit(100)]
    fn assignment(&mut self) -> (r: Result<Box<Expr>, ParseError>)
        requires
            old(self).wf(),
        ensures
            final(self).follows(old(self), r is Ok),
            expr_result(r, p_assignment(old(self).toks(), old(self).position()), final(self).position()),
        decreases old(self).rem(), 99int, 0int,
    {
        let expr = match self.or() {
            Ok(e) => e,
            Err(e) => return Err(e),
        };
        if self.match_one(TokenType::EQUAL) {
            let equals = self.previous().duplicate();
            let value = match self.assignment() {
                Ok(v) => v,
                Err(e) => return Err(e),
            };
            if let Expr::Variable(name) = &*expr {
                return Ok(Box::new(Expr::Assign(name.duplicate(), value)));
            }
            assert(!(expr_model(*expr) is Variable));
            return Err(ParseError::new(&equals, "Invalid assignment target."));
        }
        Ok(expr)
    }

    fn or(&mut self) -> (r: Result<Box<Expr>, ParseError>)
        requires
            old(self).wf(),
        ensures
            final(self).follows(old(self), r is Ok),
            expr_result(r, p_or(old(self).toks(), old(self).position()), final(self).position()),
        decreases old(self).rem(), 98int, 0int,
    {
        let left = match self.and() {
            Ok(e) => e,
            Err(e) => return Err(e),
        };
        self.or_rest(left)
    }

    /// More `or` operands after `left`, folded to the left.
    #[verifier::spinoff_prover]
    fn or_rest(&mut self, left: Box<Expr>) -> (r: Result<Box<Expr>, ParseError>)
        requires
            old(self).wf(),
        ensures
            final(self).follows(old(self), false),
            expr_result(r, p_or_rest(old(self).toks(), old(self).position(), expr_model(*left)), final(self).position()),
        decreases old(self).rem(), 97int, 0int,
    {
        if self.match_one(TokenType::OR) {
            let operator = self.previous().duplicate();
            let right = match self.and() {
                Ok(e) => e,
                Err(e) => return Err(e),
            };
            return self.or_rest(Box::new(Expr::Logical(left, operator, right)));
        }
        Ok(left)
    }

    fn and(&mut self) -> (r: Result<Box<Expr>, ParseError>)
        requires
            old(self).wf(),
        ensures
            final(self).follows(old(self), r is Ok),
            expr_result(r, p_and(old(self).toks(), old(self).position()), final(self).position()),
        decreases old(self).rem(), 96int, 0int,
    {
        let left = match self.binary(0) {
            Ok(e) => e,
            Err(e) => return Err(e),
        };
        self.and_rest(left)
    }

    /// More `and` operands after `left`, folded to the left.
    #[verifier::spinoff_prover]
    fn and_rest(&mut self, left: Box<Expr>) -> (r: Result<Box<Expr>, ParseError>)
        requires
            old(self).wf(),
        ensures
            final(self).follows(old(self), false),
            expr_result(r, p_and_rest(old(self).toks(), old(self).position(), expr_model(*left)), final(self).position()),
        decreases old(self).rem(), 95int, 0int,
    {
        if self.match_one(TokenType::AND) {
            let operator = self.previous().duplicate();
            let right = match self.binary(0) {
                Ok(e) => e,
                Err(e) => return Err(e),
            };
            return self.and_rest(Box::new(Expr::Logical(left, operator, right)));
        }
        Ok(left)
    }

    /// An operand of the binary level `level`.
    fn operand(&mut self, level: u8) -> (r: Result<Box<Expr>, ParseError>)
        requires
            old(self).wf(),
            level <= 3,
        ensures
            final(self).follows(old(self), r is Ok),
            expr_result(r, p_operand(old(self).toks(), old(self).position(), level), final(self).position()),
        decreases old(self).rem(), 89 - 2 * (level as int), 1int,
    {
        if level == 3 {
            self.unary()
        } else {
            self.binary(level + 1)
        }
    }

    /// One left-associative binary level: equality (0), comparison (1),
    /// addition (2), multiplication (3).
    fn binary(&mut self, level: u8) -> (r: Result<Box<Expr>, ParseError>)
        requires
            old(self).wf(),
            level <= 3,
        ensures
            final(self).follows(old(self), r is Ok),
            expr_result(r, p_binary(old(self).toks(), old(self).position(), level), final(self).position()),
        decreases old(self).rem(), 90 - 2 * (level as int), 0int,
    {
        let left = match self.operand(level) {
            Ok(e) => e,
            Err(e) => return Err(e),
        };
        self.binary_rest(level, left)
    }

    /// More (operator of `level`, operand) pairs after `left`, folded to the left.
    #[verifier::spinoff_prover]
    fn binary_rest(&mut self, level: u8, left: Box<Expr>) -> (r: Result<Box<Expr>, ParseError>)
        requires
            old(self).wf(),
            level <= 3,
        ensures
            final(self).follows(old(self), false),
            expr_result(r, p_binary_rest(old(self).toks(), old(self).position(), level, expr_model(*left)), final(self).position()),
        decreases old(self).rem(), 89 - 2 * (level as int), 0int,
    {
        if self.match_level(level) {
            let operator = self.previous().duplicate();
            let right = match self.operand(level) {
                Ok(e) => e,
                Err(e) => return Err(e),
            };
            return self.binary_rest(level, Box::new(Expr::Binary(left, operator, right)));
        }
        Ok(left)
    }

    #[verifier::spinoff_prover]
    fn unary(&mut self) -> (r: Result<Box<Expr>, ParseError>)
        requires
            old(self).wf(),
        ensures
            final(self).follows(old(self), r is Ok),
            expr_result(r, p_unary(old(self).toks(), old(self).position()), final(self).position()),
        decreases old(self).rem(), 80int, 0int,
    {
        if self.match_one(TokenType::BANG) || self.match_one(TokenType::MINUS) {
            let operator = self.previous().duplicate();
            let right = match self.unary() {
                Ok(v) => v,
                Err(e) => return Err(e),
            };
            return Ok(Box::new(Expr::Unary(operator, right)));
        }
        self.call()
    }

    /// A primary expression followed by any number of argument lists.
    fn call(&mut self) -> (r: Result<Box<Expr>, ParseError>)
        requires
            old(self).wf(),
        ensures
            final(self).follows(old(self), r is Ok),
            expr_result(r, p_call(old(self).toks(), old(self).position()), final(self).position()),
        decreases old(self).rem(), 79int, 0int,
    {
        let callee = match self.primary() {
            Ok(e) => e,
            Err(e) => return Err(e),
        };
        self.call_rest(callee)
    }

    /// More argument lists after `callee`; each call is the callee of the next.
    #[verifier::spinoff_prover]
    fn call_rest(&mut self, callee: Box<Expr>) -> (r: Result<Box<Expr>, ParseError>)
        requires
            old(self).wf(),
        ensures
            final(self).follows(old(self), false),
            expr_result(r, p_call_rest(old(self).toks(), old(self).position(), expr_model(*callee)), final(self).position()),
        decreases old(self).rem(), 78int, 0int,
    {
        if self.match_one(TokenType::LEFT_PAREN) {
            let e = match self.finish_call(callee) {
                Ok(e) => e,
                Err(e) => return Err(e),
            };
            return self.call_rest(e);
        }
        Ok(callee)
    }

    /// `(` has been read: the arguments and the closing parenthesis.
    #[verifier::spinoff_prover]
    fn finish_call(&mut self, callee: Box<Expr>) -> (r: Result<Box<Expr>, ParseError>)
        requires
            old(self).wf(),
        ensures
            final(self).follows(old(self), r is Ok),
            expr_result(r, p_finish_call(old(self).toks(), old(self).position(), expr_model(*callee)), final(self).position()),
        decreases old(self).rem(), 110int, 0int,
    {
        let arguments = if self.check(TokenType::RIGHT_PAREN) {
            Vec::new()
        } else {
            assert(exprs_model(Seq::<Expr>::empty()) =~= Seq::<ExprModel>::empty());
            match self.arguments(Vec::new()) {
                Ok(a) => a,
                Err(e) => return Err(e),
            }
        };
        assert(arguments@.len() == 0 ==> exprs_model(arguments@) =~= Seq::<ExprModel>::empty());
        let paren = match self.consume_token(TokenType::RIGHT_PAREN, "Expect ')' after arguments.") {
            Ok(t) => t,
            Err(e) => return Err(e),
        };
        let r = Box::new(Expr::Call(callee, paren, arguments));
        assert(expr_model(*r) == ExprModel::Call(Box::new(expr_model(*callee)), paren@, exprs_model(arguments@))) by {
            if let ExprModel::Call(_, _, m) = expr_model(*r) {
                assert(m =~= exprs_model(arguments@));
            }
        }
        Ok(r)
    }

    /// Comma-separated arguments after `args`; a ninth fails where it starts.
    #[verifier::spinoff_prover]
    fn arguments(&mut self, args: Vec<Expr>) -> (r: Result<Vec<Expr>, ParseError>)
        requires
            old(self).wf(),
        ensures
            final(self).follows(old(self), r is Ok),
            args_result(r, p_arguments(old(self).toks(), old(self).position(), exprs_model(args@)), final(self).position()),
        decreases old(self).rem(), 109int, 0int,
    {
        if args.len() >= MAX_ARGUMENTS {
            return Err(ParseError::new(self.peek(), "Cannot have more than 8 arguments."));
        }
        let argument = match self.expression() {
            Ok(a) => a,
            Err(e) => return Err(e),
        };
        let ghost am = exprs_model(args@);
        let mut args = args;
        args.push(*argument);
        assert(exprs_model(args@) =~= am.push(expr_model(*argument)));
        if self.match_one(TokenType::COMMA) {
            self.arguments(args)
        } else {
            Ok(args)
        }
    }

    #[verifier::spinoff_prover]
    #[verifier::rlimit(100)]
    fn primary(&mut self) -> (r: Result<Box<Expr>, ParseError>)
        requires
            old(self).wf(),
        ensures
            final(self).follows(old(self), r is Ok),
            expr_result(r, p_primary(old(self).toks(), old(self).position()), final(self).position()),
        decreases old(self).rem(), 77int, 0int,
    {
        if !self.is_at_end() && is_literal_kind_exec(self.peek().token_type) {
            self.advance();
            return Ok(Box::new(Expr::Literal(copy_literal(&self.previous().literal))));
        }
        if self.match_one(TokenType::IDENTIFIER) {
            return Ok(Box::new(Expr::Variable(self.previous().duplicate())));
        }
        if self.match_one(TokenType::LEFT_PAREN) {
            let expr = match self.expression() {
                Ok(e) => e,
                Err(e) => return Err(e),
            };
            if let Err(e) = self.consume_token(TokenType::RIGHT_PAREN, "Expect ')' after expression.") {
                return Err(e);
            }
            return Ok(Box::new(Expr::Grouping(expr)));
        }
        Err(ParseError::new(self.peek(), "Expect expression."))
    }

    /// Reads a token of kind `k`, or fails at the token under the cursor.
    fn consume_token(&mut self, k: TokenType, message: &str) -> (r: Result<Token, ParseError>)
        requires
            old(self).wf(),
        ensures
            final(self).follows(old(self), r is Ok),
            match expect(old(self).toks(), old(self).position(), k, message@) {
                Ok((t, q)) => r is Ok && r->Ok_0@ == t && final(self).position() == q,
                Err((e, q)) => r is Err && perr_view(r->Err_0) == e && final(self).position() == q,
            },
    {
        if self.check(k) {
            self.advance();
            return Ok(self.previous().duplicate());
        }
        Err(ParseError::new(self.peek(), message))
    }

    /// Reads a token of kind `k` if one is under the cursor.
    fn match_one(&mut self, k: TokenType) -> (r: bool)
        requires
            old(self).wf(),
        ensures
            final(self).follows(old(self), r),
            r == old(self).checks(k),
            r ==> final(self).current == old(self).current + 1,
            !r ==> final(self).current == old(self).current,
    {
        if self.check(k) {
            self.advance();
            true
        } else {
            false
        }
    }

    /// Reads an operator of the binary level `level` if one is under the cursor.
    fn match_level(&mut self, level: u8) -> (r: bool)
        requires
            old(self).wf(),
        ensures
            final(self).follows(old(self), r),
            r == (!old(self).at_end() && level_has(level, old(self).toks()[old(self).position()].kind)),
            r ==> final(self).current == old(self).current + 1,
            !r ==> final(self).current == old(self).current,
    {
        if !self.is_at_end() && level_has_exec(level, self.peek().token_type) {
            self.advance();
            true
        } else {
            false
        }
    }

    fn check(&self, k: TokenType) -> (r: bool)
        requires
            self.wf(),
        ensures
            r == self.checks(k),
    {
        if self.is_at_end() {
            return false;
        }
        self.peek().token_type == k
    }

    fn advance(&mut self)
        requires
            old(self).wf(),
        ensures
            final(self).follows(old(self), !old(self).at_end()),
            !old(self).at_end() ==> final(self).current == old(self).current + 1,
            old(self).at_end() ==> final(self).current == old(self).current,
    {
        if !self.is_at_end() {
            let n = self.tokens.len();
            assert(self.toks().last() == self.toks()[n - 1]);
            self.current = self.current + 1;
        }
    }

    fn is_at_end(&self) -> (r: bool)
        requires
            self.wf(),
        ensures
            r == self.at_end(),
    {
        self.peek().token_type == TokenType::EOF
    }

    fn peek(&self) -> (t: &Token)
        requires
            self.wf(),
        ensures
            t@ == self.toks()[self.position()],
    {
        &self.tokens[self.current]
    }

    fn previous(&self) -> (t: &Token)
        requires
            self.wf(),
            self.current > 0,
        ensures
            t@ == self.toks()[self.position() - 1],
    {
        &self.tokens[self.current - 1]
    }

    /// Panic-mode recovery: steps over the token under the cursor, then to
    /// the first position after a `;`, or at a token that begins a
    /// statement, or at the end.
    fn synchronize(&mut self)
        requires
            old(self).wf(),
        ensures
            final(self).follows(old(self), !old(self).at_end()),
            final(self).position() == p_synchronize(old(self).toks(), old(self).position()),
    {
        self.advance();
        self.skip_to_boundary();
    }

    fn skip_to_boundary(&mut self)
        requires
            old(self).wf(),
        ensures
            final(self).follows(old(self), false),
            final(self).position() == sync_from(old(self).toks(), old(self).position()),
        decreases old(self).rem(),
    {
        if self.current == 0 || self.is_at_end() {
            return;
        }
        if self.previous().token_type == TokenType::SEMICOLON || starts_statement_exec(self.peek().token_type) {
            return;
        }
        self.advance();
        self.skip_to_boundary();
    }
}

/// The lowered form of a `for` loop.
fn lower(keyword: Token, init: Option<Stmt>, cond: Option<Box<Expr>>, incr: Option<Box<Expr>>, body: Stmt) -> (r: Stmt)
    ensures
        stmt_model(r) == lower_for(keyword@, opt_stmt_model(init), opt_expr_model(cond), opt_expr_model(incr), stmt_model(body)),
{
    let ghost body_m = stmt_model(body);
    let body = match incr {
        Some(increment) => {
            let step = Stmt::Expression(increment);
            let ghost step_m = stmt_model(step);
            assert(step_m == StmtModel::Expression(expr_model(*increment)));
            let mut ss: Vec<Stmt> = Vec::new();
            ss.push(body);
            ss.push(step);
            let b = Stmt::Block(ss);
            assert(stmt_model(b) == StmtModel::Block(seq![body_m, step_m])) by {
                if let StmtModel::Block(m) = stmt_model(b) {
                    assert(m =~= seq![body_m, step_m]);
                }
            }
            b
        },
        None => body,
    };
    let condition = match cond {
        Some(c) => c,
        None => Box::new(Expr::Literal(Literal::Boolean(true))),
    };
    let lowered = Stmt::While(keyword, condition, Box::new(body));
    match init {
        Some(initializer) => {
            let ghost init_m = stmt_model(initializer);
            let ghost lowered_m = stmt_model(lowered);
            let mut ss: Vec<Stmt> = Vec::new();
            ss.push(initializer);
            ss.push(lowered);
            let b = Stmt::Block(ss);
            assert(stmt_model(b) == StmtModel::Block(seq![init_m, lowered_m])) by {
                if let StmtModel::Block(m) = stmt_model(b) {
                    assert(m =~= seq![init_m, lowered_m]);
                }
            }
            b
        },
        None => lowered,
    }
}

fn starts_statement_exec(k: TokenType) -> (r: bool)
    ensures
        r == starts_statement(k),
{
    match k {
        TokenType::CLASS | TokenType::FUN | TokenType::VAR | TokenType::FOR | TokenType::IF | TokenType::WHILE
        | TokenType::PRINT | TokenType::RETURN => true,
        _ => false,
    }
}

} // verus!
