use lox::ast::{Expr, Stmt, AST};
use lox::parser::{ParseError, Parser};
use lox::scanner::Scanner;
use lox::token::{Literal, TokenType};

fn parse(src: &str) -> Result<AST, Vec<ParseError>> {
    let mut scanner = Scanner::new(src.to_string());
    let tokens = scanner.scan_tokens();
    let mut parser = Parser::new(tokens);
    parser.parse()
}

fn program(src: &str) -> Vec<Stmt> {
    match parse(src) {
        Ok(ast) => ast.root,
        Err(es) => panic!("parse failed: {}", es[0].message),
    }
}

fn only_expression(src: &str) -> Expr {
    let mut root = program(src);
    assert_eq!(root.len(), 1);
    match root.remove(0) {
        Stmt::Expression(e) => *e,
        _ => panic!("not an expression statement"),
    }
}

fn is_num(e: &Expr, x: f64) -> bool {
    matches!(e, Expr::Literal(Literal::Number(n)) if f64::from_bits(n.bits) == x)
}

fn is_var(e: &Expr, name: &str) -> bool {
    matches!(e, Expr::Variable(t) if t.lexeme == name)
}

#[test]
fn sum_of_product_as_statement() {
    match only_expression("1+2*3;") {
        Expr::Binary(l, op, r) => {
            assert_eq!(op.lexeme, "+");
            assert!(is_num(&l, 1.0));
            match *r {
                Expr::Binary(a, op2, b) => {
                    assert_eq!(op2.lexeme, "*");
                    assert!(is_num(&a, 2.0) && is_num(&b, 3.0));
                }
                _ => panic!("no product"),
            }
        }
        _ => panic!("no sum"),
    }
}

#[test]
fn subtraction_is_left_associative() {
    match only_expression("1-2-3;") {
        Expr::Binary(l, op, r) => {
            assert_eq!(op.token_type, TokenType::MINUS);
            assert!(is_num(&r, 3.0));
            match *l {
                Expr::Binary(a, _, b) => assert!(is_num(&a, 1.0) && is_num(&b, 2.0)),
                _ => panic!("left is not a difference"),
            }
        }
        _ => panic!("no difference"),
    }
}

#[test]
fn assignment_is_right_associative() {
    match only_expression("a = b = 1;") {
        Expr::Assign(a, v) => {
            assert_eq!(a.lexeme, "a");
            match *v {
                Expr::Assign(b, one) => {
                    assert_eq!(b.lexeme, "b");
                    assert!(is_num(&one, 1.0));
                }
                _ => panic!("inner is not an assignment"),
            }
        }
        _ => panic!("no assignment"),
    }
}

#[test]
fn only_variables_can_be_assigned() {
    for src in ["1 = 2;", "a + b = 2;", "(a) = 1;"] {
        let es = match parse(src) {
            Ok(_) => panic!("{} parsed", src),
            Err(es) => es,
        };
        assert_eq!(es[0].message, "Invalid assignment target.");
        assert_eq!(es[0].token.token_type, TokenType::EQUAL);
        assert_eq!(es[0].token.lexeme, "=");
    }
}

#[test]
fn eight_arguments_parse() {
    match only_expression("f(1,2,3,4,5,6,7,8);") {
        Expr::Call(callee, paren, args) => {
            assert!(is_var(&callee, "f"));
            assert_eq!(paren.lexeme, ")");
            assert_eq!(args.len(), 8);
            for (i, a) in args.iter().enumerate() {
                assert!(is_num(a, (i + 1) as f64));
            }
        }
        _ => panic!("no call"),
    }
}

#[test]
fn ninth_argument_is_an_error_at_its_token() {
    let es = match parse("f(1,2,3,4,5,6,7,8,9);") {
        Ok(_) => panic!("parsed"),
        Err(es) => es,
    };
    assert_eq!(es[0].message, "Cannot have more than 8 arguments.");
    assert_eq!(es[0].token.token_type, TokenType::NUMBER);
    assert_eq!(es[0].token.lexeme, "9");
}

#[test]
fn chained_calls_nest_left_to_right() {
    match only_expression("f(1)(2);") {
        Expr::Call(inner, _, args) => {
            assert_eq!(args.len(), 1);
            assert!(is_num(&args[0], 2.0));
            match *inner {
                Expr::Call(f, _, args1) => {
                    assert!(is_var(&f, "f"));
                    assert!(is_num(&args1[0], 1.0));
                }
                _ => panic!("callee is not a call"),
            }
        }
        _ => panic!("no call"),
    }
}

#[test]
fn or_and_equality_precedence() {
    match only_expression("a or b and c == d;") {
        Expr::Logical(a, op, r) => {
            assert_eq!(op.token_type, TokenType::OR);
            assert!(is_var(&a, "a"));
            match *r {
                Expr::Logical(b, op2, eq) => {
                    assert_eq!(op2.token_type, TokenType::AND);
                    assert!(is_var(&b, "b"));
                    match *eq {
                        Expr::Binary(c, op3, d) => {
                            assert_eq!(op3.token_type, TokenType::EQUAL_EQUAL);
                            assert!(is_var(&c, "c") && is_var(&d, "d"));
                        }
                        _ => panic!("no equality"),
                    }
                }
                _ => panic!("no and"),
            }
        }
        _ => panic!("no or"),
    }
}

#[test]
fn missing_semicolon_is_reported_at_the_next_token() {
    let es = match parse("print 1 print 2;") {
        Ok(_) => panic!("parsed"),
        Err(es) => es,
    };
    assert_eq!(es[0].message, "Expect ';' after value.");
    assert_eq!(es[0].token.token_type, TokenType::PRINT);
    assert_eq!(es[0].token.line, 1);
}

#[test]
fn one_statement_per_declaration() {
    let root = program("var a = 1; var b; print a; { a = 2; }");
    assert_eq!(root.len(), 4);
    assert!(matches!(&root[0], Stmt::Var(a, e) if a.lexeme == "a" && is_num(e, 1.0)));
    assert!(matches!(&root[1], Stmt::Var(b, e) if b.lexeme == "b" && matches!(**e, Expr::Literal(Literal::Nil))));
    assert!(matches!(&root[2], Stmt::Print(e) if is_var(e, "a")));
    match &root[3] {
        Stmt::Block(ss) => {
            assert_eq!(ss.len(), 1);
            assert!(matches!(&ss[0], Stmt::Expression(e) if matches!(&**e, Expr::Assign(a, v) if a.lexeme == "a" && is_num(v, 2.0))));
        }
        _ => panic!("no block"),
    }
}

#[test]
fn for_loop_lowering_in_full() {
    let root = program("for (var i = 0; i < 3; i = i + 1) print i;");
    assert_eq!(root.len(), 1);
    let ss = match &root[0] {
        Stmt::Block(ss) => ss,
        _ => panic!("no block"),
    };
    assert_eq!(ss.len(), 2);
    assert!(matches!(&ss[0], Stmt::Var(i, e) if i.lexeme == "i" && is_num(e, 0.0)));
    match &ss[1] {
        Stmt::While(_, cond, body) => {
            assert!(matches!(&**cond, Expr::Binary(l, op, r) if is_var(l, "i") && op.lexeme == "<" && is_num(r, 3.0)));
            match &**body {
                Stmt::Block(b) => {
                    assert_eq!(b.len(), 2);
                    assert!(matches!(&b[0], Stmt::Print(e) if is_var(e, "i")));
                    assert!(matches!(&b[1], Stmt::Expression(e) if matches!(&**e, Expr::Assign(i, _) if i.lexeme == "i")));
                }
                _ => panic!("body is not a block"),
            }
        }
        _ => panic!("no while"),
    }
}

#[test]
fn for_without_clauses_has_no_blocks() {
    let root = program("for (;;) print 1;");
    assert_eq!(root.len(), 1);
    match &root[0] {
        Stmt::While(_, cond, body) => {
            assert!(matches!(&**cond, Expr::Literal(Literal::Boolean(true))));
            assert!(matches!(&**body, Stmt::Print(e) if is_num(e, 1.0)));
        }
        _ => panic!("no while"),
    }
    let root = program("for (; x;) print 1;");
    match &root[0] {
        Stmt::While(_, cond, _) => assert!(is_var(cond, "x")),
        _ => panic!("no while"),
    }
}
