use lox::ast::{Expr, Stmt};
use lox::interpreter::{decimal_text, Interpreter};
use lox::lox::{Lox, Report};
use lox::number::Number;
use lox::parser::Parser;
use lox::scanner::Scanner;
use lox::token::{Literal, Token, TokenType};
use lox::value::{Callable, Clock, LoxObject, RuntimeError};

fn scan(src: &str) -> (Vec<Token>, Vec<String>) {
    let mut scanner = Scanner::new(src.to_string());
    let tokens = scanner.scan_tokens();
    let errors = scanner.errors().iter().map(|e| e.message.clone()).collect();
    (tokens, errors)
}

fn kinds(tokens: &[Token]) -> Vec<TokenType> {
    tokens.iter().map(|t| t.token_type).collect()
}

fn parse_expr(src: &str) -> Box<Expr> {
    let (tokens, errors) = scan(src);
    assert!(errors.is_empty());
    let mut parser = Parser::new(tokens);
    match parser.expression() {
        Ok(e) => e,
        Err(e) => panic!("parse error: {}", e.message),
    }
}

fn eval(src: &str) -> Result<LoxObject, RuntimeError> {
    let e = parse_expr(src);
    let mut interpreter = Interpreter::new();
    interpreter.evaluate(&e)
}

fn number(v: &LoxObject) -> f64 {
    match v {
        LoxObject::Literal(Literal::Number(n)) => f64::from_bits(n.bits),
        other => panic!("not a number: {:?}", other),
    }
}

fn string(v: &LoxObject) -> String {
    match v {
        LoxObject::Literal(Literal::String(s)) => s.clone(),
        other => panic!("not a string: {:?}", other),
    }
}

fn boolean(v: &LoxObject) -> bool {
    match v {
        LoxObject::Literal(Literal::Boolean(b)) => *b,
        other => panic!("not a boolean: {:?}", other),
    }
}

fn error_message(r: Result<LoxObject, RuntimeError>) -> String {
    match r {
        Ok(v) => panic!("expected an error, got {:?}", v),
        Err(e) => e.message,
    }
}

fn run(src: &str) -> Report {
    let mut lox = Lox::new();
    lox.run(src.to_string())
}

fn num(x: f64) -> LoxObject {
    LoxObject::Literal(Literal::Number(Number::from_bits(x.to_bits())))
}

fn str_value(s: &str) -> LoxObject {
    LoxObject::Literal(Literal::String(s.to_string()))
}

#[test]
fn scans_one_plus_two() {
    let (tokens, errors) = scan("1+2");
    assert!(errors.is_empty());
    assert_eq!(kinds(&tokens), vec![TokenType::NUMBER, TokenType::PLUS, TokenType::NUMBER, TokenType::EOF]);
    assert_eq!(number(&LoxObject::Literal(tokens[0].literal.clone())), 1.0);
    assert_eq!(number(&LoxObject::Literal(tokens[2].literal.clone())), 2.0);
    assert_eq!(tokens[1].lexeme, "+");
    assert_eq!(tokens[3].lexeme, "");
}

#[test]
fn each_operator_spelling_scans_to_one_token() {
    let cases = [
        ("(", TokenType::LEFT_PAREN),
        (")", TokenType::RIGHT_PAREN),
        ("{", TokenType::LEFT_BRACE),
        ("}", TokenType::RIGHT_BRACE),
        (",", TokenType::COMMA),
        (".", TokenType::DOT),
        ("-", TokenType::MINUS),
        ("+", TokenType::PLUS),
        (";", TokenType::SEMICOLON),
        ("*", TokenType::STAR),
        ("/", TokenType::SLASH),
        ("!", TokenType::BANG),
        ("!=", TokenType::BANG_EQUAL),
        ("=", TokenType::EQUAL),
        ("==", TokenType::EQUAL_EQUAL),
        ("<", TokenType::LESS),
        ("<=", TokenType::LESS_EQUAL),
        (">", TokenType::GREATER),
        (">=", TokenType::GREATER_EQUAL),
    ];
    for (spelling, kind) in cases {
        let (tokens, errors) = scan(spelling);
        assert!(errors.is_empty());
        assert_eq!(tokens.len(), 2, "{}", spelling);
        assert_eq!(tokens[0].token_type, kind);
        assert_eq!(tokens[0].lexeme, spelling);
        assert_eq!(tokens[0].line, 1);
        assert_eq!(tokens[1].token_type, TokenType::EOF);
    }
}

#[test]
fn unterminated_string_is_an_error_and_no_token() {
    let (tokens, errors) = scan("1 \"abc\ndef");
    assert_eq!(kinds(&tokens), vec![TokenType::NUMBER, TokenType::EOF]);
    assert_eq!(errors, vec!["Unterminated string.".to_string()]);
    assert_eq!(tokens[1].line, 2);
}

#[test]
fn unexpected_character_is_dropped() {
    let (tokens, errors) = scan("1 @ 2");
    assert_eq!(kinds(&tokens), vec![TokenType::NUMBER, TokenType::NUMBER, TokenType::EOF]);
    assert_eq!(errors, vec!["Unexpected character.".to_string()]);
}

#[test]
fn scans_strings_numbers_keywords_and_lines() {
    let (tokens, errors) = scan("var x = \"hi\"; // note\nprint 3.25 and true;");
    assert!(errors.is_empty());
    assert_eq!(
        kinds(&tokens),
        vec![
            TokenType::VAR,
            TokenType::IDENTIFIER,
            TokenType::EQUAL,
            TokenType::STRING,
            TokenType::SEMICOLON,
            TokenType::PRINT,
            TokenType::NUMBER,
            TokenType::AND,
            TokenType::TRUE,
            TokenType::SEMICOLON,
            TokenType::EOF
        ]
    );
    assert_eq!(string(&LoxObject::Literal(tokens[3].literal.clone())), "hi");
    assert_eq!(tokens[3].lexeme, "\"hi\"");
    assert_eq!(number(&LoxObject::Literal(tokens[6].literal.clone())), 3.25);
    assert!(boolean(&LoxObject::Literal(tokens[8].literal.clone())));
    assert_eq!(tokens[5].line, 2);
    assert_eq!(tokens[10].line, 2);
}

#[test]
fn numeral_with_trailing_dot_stops_before_it() {
    let (tokens, _) = scan("12.");
    assert_eq!(kinds(&tokens), vec![TokenType::NUMBER, TokenType::DOT, TokenType::EOF]);
    assert_eq!(tokens[0].lexeme, "12");
}

#[test]
fn multiplication_binds_tighter_than_addition() {
    let e = parse_expr("1+2*3");
    match *e {
        Expr::Binary(l, op, r) => {
            assert_eq!(op.token_type, TokenType::PLUS);
            assert!(matches!(*l, Expr::Literal(Literal::Number(n)) if f64::from_bits(n.bits) == 1.0));
            match *r {
                Expr::Binary(a, op2, b) => {
                    assert_eq!(op2.token_type, TokenType::STAR);
                    assert!(matches!(*a, Expr::Literal(Literal::Number(n)) if f64::from_bits(n.bits) == 2.0));
                    assert!(matches!(*b, Expr::Literal(Literal::Number(n)) if f64::from_bits(n.bits) == 3.0));
                }
                _ => panic!("right operand is not a product"),
            }
        }
        _ => panic!("not a sum"),
    }
}

#[test]
fn grouping_changes_the_tree() {
    let e = parse_expr("(1+2)*3");
    match *e {
        Expr::Binary(l, op, r) => {
            assert_eq!(op.token_type, TokenType::STAR);
            assert!(matches!(*r, Expr::Literal(Literal::Number(n)) if f64::from_bits(n.bits) == 3.0));
            match *l {
                Expr::Grouping(inner) => match *inner {
                    Expr::Binary(_, op2, _) => assert_eq!(op2.token_type, TokenType::PLUS),
                    _ => panic!("group does not hold a sum"),
                },
                _ => panic!("left operand is not a group"),
            }
        }
        _ => panic!("not a product"),
    }
}

#[test]
fn for_loop_is_lowered_to_while_in_blocks() {
    let (tokens, _) = scan("for (var i = 0; i < 3; i = i + 1) print i;");
    let mut parser = Parser::new(tokens);
    let ast = match parser.parse() {
        Ok(a) => a,
        Err(_) => panic!("parse failed"),
    };
    assert_eq!(ast.root.len(), 1);
    match &ast.root[0] {
        Stmt::Block(ss) => {
            assert_eq!(ss.len(), 2);
            assert!(matches!(ss[0], Stmt::Var(..)));
            match &ss[1] {
                Stmt::While(kw, _, body) => {
                    assert_eq!(kw.token_type, TokenType::FOR);
                    assert!(matches!(**body, Stmt::Block(ref b) if b.len() == 2));
                }
                _ => panic!("no while"),
            }
        }
        _ => panic!("no block"),
    }
}

#[test]
fn parse_errors_are_collected() {
    let report = run("print ; var 1 = 2; print 3;");
    assert!(report.program.is_none());
    let messages: Vec<String> = report.parse_errors.iter().map(|e| e.message.clone()).collect();
    assert_eq!(messages, vec!["Expect expression.".to_string(), "Expect variable name.".to_string()]);
}

#[test]
fn invalid_assignment_target() {
    let report = run("1 = 2;");
    assert_eq!(report.parse_errors.len(), 1);
    assert_eq!(report.parse_errors[0].message, "Invalid assignment target.");
    assert_eq!(report.parse_errors[0].token.lexeme, "=");
}

#[test]
fn too_many_arguments() {
    let report = run("clock(1, 2, 3, 4, 5, 6, 7, 8, 9);");
    assert_eq!(report.parse_errors.len(), 1);
    assert_eq!(report.parse_errors[0].message, "Cannot have more than 8 arguments.");
}

#[test]
fn missing_semicolon_at_end() {
    let mut lox = Lox::new();
    let report = lox.run("print 1".to_string());
    assert_eq!(report.parse_errors.len(), 1);
    assert_eq!(report.parse_errors[0].message, "Expect ';' after value.");
    let d = lox.token_error(&report.parse_errors[0].token, &report.parse_errors[0].message);
    assert_eq!(d.location, " at end");
    assert!(lox.had_error);
}

#[test]
fn divide_by_zero_is_an_error() {
    assert_eq!(error_message(eval("1/0")), "Divide by zero error.");
    assert_eq!(error_message(eval("1/-0")), "Divide by zero error.");
    assert_eq!(number(&eval("1/4").ok().unwrap()), 0.25);
}

#[test]
fn plus_on_strings_and_numbers() {
    assert_eq!(string(&eval("\"a\" + \"b\"").ok().unwrap()), "ab");
    assert_eq!(error_message(eval("1 + \"a\"")), "Operands must be two numbers or two strings.");
    assert_eq!(number(&eval("0.1 + 0.2").ok().unwrap()), 0.1f64 + 0.2f64);
}

#[test]
fn arithmetic_and_comparison() {
    assert_eq!(number(&eval("7 - 2 * 3").ok().unwrap()), 1.0);
    assert_eq!(number(&eval("-(2 + 3)").ok().unwrap()), -5.0);
    assert_eq!(number(&eval("10 / 4").ok().unwrap()), 2.5);
    assert!(boolean(&eval("2 > 1").ok().unwrap()));
    assert!(!boolean(&eval("1 > 1").ok().unwrap()));
    assert!(boolean(&eval("1 >= 1").ok().unwrap()));
    assert!(boolean(&eval("-1 < 0").ok().unwrap()));
    assert!(boolean(&eval("0 <= -0").ok().unwrap()));
    assert!(boolean(&eval("1 != 2").ok().unwrap()));
    assert!(boolean(&eval("\"x\" == \"x\"").ok().unwrap()));
    assert!(boolean(&eval("!nil").ok().unwrap()));
    assert_eq!(error_message(eval("-\"a\"")), "Operand must be a number.");
    assert_eq!(error_message(eval("1 < \"a\"")), "Operands must be numbers.");
}

#[test]
fn truthiness() {
    assert!(!LoxObject::Literal(Literal::Nil).is_truthy());
    assert!(!LoxObject::Literal(Literal::Boolean(false)).is_truthy());
    assert!(LoxObject::Literal(Literal::Boolean(true)).is_truthy());
    assert!(num(0.0).is_truthy());
    assert!(str_value("").is_truthy());
    assert!(LoxObject::Function(Callable::Clock(Clock)).is_truthy());
}

#[test]
fn logical_operators_return_operands() {
    assert_eq!(number(&eval("1 and 2").ok().unwrap()), 2.0);
    assert_eq!(string(&eval("nil or \"x\"").ok().unwrap()), "x");
    assert!(matches!(eval("nil and 1").ok().unwrap(), LoxObject::Literal(Literal::Nil)));
    assert_eq!(number(&eval("3 or undefined").ok().unwrap()), 3.0);
}

#[test]
fn block_scoping() {
    let report = run("var a = 1; { var a = 2; print a; } print a; { a = 3; } print a;");
    assert!(report.runtime_error.is_none());
    let printed: Vec<f64> = report.printed.iter().map(number).collect();
    assert_eq!(printed, vec![2.0, 1.0, 3.0]);
}

#[test]
fn no_equality_across_variants() {
    assert!(!boolean(&eval("1 == \"1\"").ok().unwrap()));
    assert!(!boolean(&eval("nil == false").ok().unwrap()));
    assert!(!num(1.0).equals(&str_value("1")));
    assert!(num(1.0).equals(&num(1.0)));
}

#[test]
fn wrong_argument_count() {
    let report = run("clock(1);");
    let e = report.runtime_error.unwrap();
    assert_eq!(e.message, "Expected 0 arguments but got 1.");
    assert_eq!(e.token.lexeme, ")");
}

#[test]
fn clock_never_decreases() {
    let report = run("var a = clock(); var b = clock(); print b >= a; print a > 1000000000000;");
    assert!(report.runtime_error.is_none());
    assert!(boolean(&report.printed[0]));
    assert!(boolean(&report.printed[1]));
}

#[test]
fn calling_a_non_callable() {
    let report = run("var x = 1; x();");
    assert_eq!(report.runtime_error.unwrap().message, "Can only call functions and classes.");
}

#[test]
fn undefined_variables() {
    let report = run("print y;");
    assert_eq!(report.runtime_error.unwrap().message, "Undefined variable 'y'.");
    let report = run("y = 1;");
    assert_eq!(report.runtime_error.unwrap().message, "Undefined variable 'y'.");
}

#[test]
fn runtime_error_stops_the_program() {
    let mut lox = Lox::new();
    let report = lox.run("print 1; print -nil; print 2;".to_string());
    assert_eq!(report.printed.len(), 1);
    assert!(lox.had_runtime_error);
    let d = lox.runtime_error(report.runtime_error.as_ref().unwrap());
    assert_eq!(d.message, "Operand must be a number.");
    assert_eq!(d.line, 1);
}

#[test]
fn loops_and_conditionals() {
    let report = run(
        "var sum = 0; for (var i = 1; i <= 4; i = i + 1) sum = sum + i; print sum; \
         var n = 0; while (n < 3) n = n + 1; print n; \
         if (n == 3) print \"yes\"; else print \"no\"; if (false) print 1;",
    );
    assert!(report.runtime_error.is_none());
    assert_eq!(number(&report.printed[0]), 10.0);
    assert_eq!(number(&report.printed[1]), 3.0);
    assert_eq!(string(&report.printed[2]), "yes");
    assert_eq!(report.printed.len(), 3);
}

#[test]
fn scan_errors_stop_the_run() {
    let mut lox = Lox::new();
    let report = lox.run("print 1; @".to_string());
    assert!(report.program.is_none());
    assert_eq!(report.scan_errors.len(), 1);
    assert!(report.printed.is_empty());
    assert!(lox.had_error);
    let d = lox.line_error(report.scan_errors[0].line, &report.scan_errors[0].message);
    assert_eq!(d.line, 1);
    assert_eq!(d.location, "");
}

#[test]
fn printed_text() {
    assert_eq!(str_value("a b").text().unwrap(), "a b");
    assert_eq!(LoxObject::Literal(Literal::Boolean(true)).text().unwrap(), "true");
    assert_eq!(LoxObject::Literal(Literal::Nil).text().unwrap(), "nil");
    assert_eq!(LoxObject::Function(Callable::Clock(Clock)).text().unwrap(), "<function>");
    assert!(num(1.5).text().is_none());
}

#[test]
fn decimal_numerals() {
    assert_eq!(decimal_text(0), "0");
    assert_eq!(decimal_text(7), "7");
    assert_eq!(decimal_text(1203), "1203");
}

#[test]
fn number_operations_follow_ieee() {
    let a = Number::from_bits(0.1f64.to_bits());
    let b = Number::from_bits(0.2f64.to_bits());
    assert_eq!(a.add(&b).bits, (0.1f64 + 0.2f64).to_bits());
    assert_eq!(a.subtract(&b).bits, (0.1f64 - 0.2f64).to_bits());
    assert_eq!(a.multiply(&b).bits, (0.1f64 * 0.2f64).to_bits());
    assert_eq!(a.divide(&b).bits, (0.1f64 / 0.2f64).to_bits());
    assert_eq!(a.negate().bits, (-0.1f64).to_bits());
    assert!(a.less_than(&b));
    assert!(!b.less_than(&a));
    assert!(Number::from_bits(0.0f64.to_bits()).equals(&Number::from_bits((-0.0f64).to_bits())));
    let nan = Number::from_bits(f64::NAN.to_bits());
    assert!(nan.is_nan());
    assert!(!nan.equals(&nan));
    assert_eq!(Number::parse_decimal("3.25").unwrap().bits, 3.25f64.to_bits());
    assert_eq!(Number::parse_decimal("0.1").unwrap().bits, 0.1f64.to_bits());
    assert!(Number::parse_decimal("").is_none());
    assert_eq!(Number::from_integer(1234).bits, 1234.0f64.to_bits());
}
