//! The pipeline from source text to effects: scan, parse, and run when
//! neither found an error. Each stage's outcome comes back as values; how
//! they are shown and which exit status follows is the caller's business.
use crate::ast::{stmts_model, AST};
use crate::grammar::parse_spec;
use crate::interpreter::{unit_view, values_view, Interpreter, LOOP_FUEL};
use crate::parser::{errors_view as parse_errors_view, ParseError, Parser};
use crate::scanner::{errors_view, lemma_lex_progress, lemma_scan_ends_with_eof, scan_spec, Scanner};
use crate::semantics::{extends, run_stmts, State};
use crate::token::{ScanError, Token, TokenType};
use crate::value::{Callable, Clock, ObjModel, RuntimeError};
use vstd::prelude::*;

verus! {

/// The state a program starts in: `clock` bound in the global scope.
pub open spec fn initial_state() -> State {
    State {
        scopes: seq![seq![("clock"@, ObjModel::Function(Callable::Clock(Clock)))]],
        printed: Seq::empty(),
        clock: 0,
        ticks: 0,
        fuel: LOOP_FUEL as nat,
    }
}

/// What one run produced.
pub struct Report {
    /// The values printed, in order.
    pub printed: Vec<crate::value::LoxObject>,
    pub scan_errors: Vec<ScanError>,
    pub parse_errors: Vec<ParseError>,
    /// The error that stopped execution, if one did.
    pub runtime_error: Option<RuntimeError>,
    /// The parsed program, when scanning and parsing found no error.
    pub program: Option<AST>,
}

pub open spec fn runtime_view(e: Option<RuntimeError>) -> Result<(), crate::value::ErrModel> {
    match e {
        Some(er) => Err(er@),
        None => Ok(()),
    }
}

/// A diagnostic for the user: the line, where on it, and what went wrong.
pub struct Diagnostic {
    pub line: usize,
    pub location: String,
    pub message: String,
}

/// The driver. It remembers whether the last run met a static error (scan or
/// parse) or a runtime error.
pub struct Lox {
    pub had_error: bool,
    pub had_runtime_error: bool,
}

impl Lox {
    pub fn new() -> (r: Lox)
        ensures
            !r.had_error,
            !r.had_runtime_error,
    {
        Lox { had_error: false, had_runtime_error: false }
    }

    /// Scans, parses and, when both succeeded, runs `source` in a fresh
    /// interpreter.
    pub fn run(&mut self, source: String) -> (r: Report)
        ensures
            source@.len() < usize::MAX ==> errors_view(r.scan_errors@) == scan_spec(source@).1,
            final(self).had_error == (r.scan_errors@.len() > 0 || r.parse_errors@.len() > 0),
            final(self).had_runtime_error == r.runtime_error is Some,
            r.program is Some <==> (r.scan_errors@.len() == 0 && r.parse_errors@.len() == 0),
            r.program is None ==> r.printed@.len() == 0 && r.runtime_error is None,
            source@.len() < usize::MAX ==> match parse_spec(scan_spec(source@).0) {
                Ok(m) => r.parse_errors@.len() == 0 && (r.program matches Some(p) ==> stmts_model(p.root@) == m),
                Err(es) => parse_errors_view(r.parse_errors@) == es,
            },
            r.program matches Some(p) ==> exists|t: Seq<u64>| {
                let (res, st) = #[trigger] run_stmts(p.root@, 0, initial_state(), t);
                res == runtime_view(r.runtime_error) && st.printed == values_view(r.printed@)
            },
    {
        let n = source.as_str().unicode_len();
        if n == usize::MAX {
            // No real text has that many characters; refuse it as a whole.
            self.had_error = true;
            self.had_runtime_error = false;
            let e = ScanError::new(0, "Source text too long.");
            return Report {
                printed: Vec::new(),
                scan_errors: vec![e],
                parse_errors: Vec::new(),
                runtime_error: None,
                program: None,
            };
        }
        let mut scanner = Scanner::new(source);
        let tokens = scanner.scan_tokens();
        let scan_errors = scanner.take_errors();
        proof {
            lemma_scan_ends_with_eof(scanner.text(), 0, 1);
            lemma_lex_progress(scanner.text(), 0);
        }
        let mut parser = Parser::new(tokens);
        let parsed = parser.parse();
        match parsed {
            Err(parse_errors) => {
                self.had_error = true;
                self.had_runtime_error = false;
                Report { printed: Vec::new(), scan_errors, parse_errors, runtime_error: None, program: None }
            },
            Ok(ast) => {
                if scan_errors.len() > 0 {
                    self.had_error = true;
                    self.had_runtime_error = false;
                    return Report {
                        printed: Vec::new(),
                        scan_errors,
                        parse_errors: Vec::new(),
                        runtime_error: None,
                        program: None,
                    };
                }
                self.had_error = false;
                let mut interpreter = Interpreter::new();
                let result = interpreter.interpret(&ast);
                let ghost after = interpreter@;
                let ghost t = interpreter.readings();
                let printed = interpreter.take_printed();
                let runtime_error = match result {
                    Ok(()) => None,
                    Err(e) => Some(e),
                };
                self.had_runtime_error = runtime_error.is_some();
                let report = Report { printed, scan_errors, parse_errors: Vec::new(), runtime_error, program: Some(ast) };
                proof {
                    assert(extends(t, t));
                    let p = report.program->Some_0;
                    assert(run_stmts(p.root@, 0, initial_state(), t) == (unit_view(result), after));
                    let (res, st) = run_stmts(p.root@, 0, initial_state(), t);
                    assert(res == runtime_view(report.runtime_error) && st.printed == values_view(report.printed@));
                }
                report
            },
        }
    }

    /// A diagnostic at a line, with no location.
    pub fn line_error(&mut self, line: usize, message: &str) -> (r: Diagnostic)
        ensures
            final(self).had_error,
            final(self).had_runtime_error == old(self).had_runtime_error,
            r.line == line,
            r.location@ == Seq::<char>::empty(),
            r.message@ == message@,
    {
        self.had_error = true;
        let r = Diagnostic { line, location: String::new(), message: message.to_owned() };
        r
    }

    /// A diagnostic at a token: " at end" for the end marker, else the
    /// lexeme quoted.
    pub fn token_error(&mut self, token: &Token, message: &str) -> (r: Diagnostic)
        ensures
            final(self).had_error,
            final(self).had_runtime_error == old(self).had_runtime_error,
            r.line == token.line,
            r.location@ == if token.token_type == TokenType::EOF {
                " at end"@
            } else {
                " at '"@ + token.lexeme@ + "'"@
            },
            r.message@ == message@,
    {
        self.had_error = true;
        let location = if token.token_type == TokenType::EOF {
            " at end".to_owned()
        } else {
            let mut l = " at '".to_owned();
            l.append(token.lexeme.as_str());
            l.append("'");
            l
        };
        Diagnostic { line: token.line, location, message: message.to_owned() }
    }

    /// A diagnostic for the error that stopped a run, at its token's line.
    pub fn runtime_error(&mut self, err: &RuntimeError) -> (r: Diagnostic)
        ensures
            final(self).had_runtime_error,
            final(self).had_error == old(self).had_error,
            r.line == err.token.line,
            r.location@ == Seq::<char>::empty(),
            r.message@ == err.message@,
    {
        self.had_runtime_error = true;
        Diagnostic { line: err.token.line, location: String::new(), message: err.message.clone() }
    }
}

} // verus!
