//! The scanner: source text to an ordered sequence of tokens, always ended by
//! one end-of-input token. Scanning is codepoint-aware: positions count
//! characters, not bytes.
use crate::number::{double_of_decimal, Number};
use crate::token::{ignored_kind, Literal, LiteralModel, ScanError, Token, TokenModel, TokenType};
use vstd::prelude::*;

verus! {

/// Whether a character is alphabetic in Unicode's sense.
pub uninterp spec fn char_alphabetic(c: char) -> bool;

/// Whether a character is alphabetic or numeric in Unicode's sense.
pub uninterp spec fn char_alphanumeric(c: char) -> bool;

/// Relies on `char::is_alphabetic`: Unicode's `Alphabetic` property, which
/// among ASCII characters holds exactly for the letters.
pub assume_specification[ char::is_alphabetic ](c: char) -> (r: bool)
    ensures
        r == char_alphabetic(c),
        (c as u32) < 128 ==> (r <==> (('a' <= c && c <= 'z') || ('A' <= c && c <= 'Z'))),
;

/// Relies on `char::is_alphanumeric`: Unicode's `Alphabetic` or `Numeric`
/// property, which among ASCII characters holds exactly for letters and digits.
pub assume_specification[ char::is_alphanumeric ](c: char) -> (r: bool)
    ensures
        r == char_alphanumeric(c),
        (c as u32) < 128 ==> (r <==> (('a' <= c && c <= 'z') || ('A' <= c && c <= 'Z') || ('0' <= c && c <= '9'))),
;

pub open spec fn is_digit(c: char) -> bool {
    '0' <= c && c <= '9'
}

/// The character runs that a lexeme may extend over.
#[derive(Clone, Copy)]
pub enum Run {
    Digits,
    Word,
    Comment,
    StringBody,
}

pub open spec fn in_run(c: char, r: Run) -> bool {
    match r {
        Run::Digits => is_digit(c),
        Run::Word => char_alphanumeric(c),
        Run::Comment => c != '\n',
        Run::StringBody => c != '"',
    }
}

/// The first position at or after `i` whose character leaves the run.
pub open spec fn run_end(s: Seq<char>, i: int, r: Run) -> int
    decreases s.len() - i,
{
    if 0 <= i < s.len() && in_run(s[i], r) {
        run_end(s, i + 1, r)
    } else {
        i
    }
}

/// The number of newlines in `s[a..b]`.
pub open spec fn newlines_in(s: Seq<char>, a: int, b: int) -> nat
    decreases b - a,
{
    if a < b {
        newlines_in(s, a, b - 1) + if s[b - 1] == '\n' { 1nat } else { 0nat }
    } else {
        0
    }
}

/// The reserved words, and what an identifier run that is none of them is.
pub open spec fn word_kind(w: Seq<char>) -> TokenType {
    if w == "and"@ {
        TokenType::AND
    } else if w == "class"@ {
        TokenType::CLASS
    } else if w == "else"@ {
        TokenType::ELSE
    } else if w == "false"@ {
        TokenType::FALSE
    } else if w == "for"@ {
        TokenType::FOR
    } else if w == "fun"@ {
        TokenType::FUN
    } else if w == "if"@ {
        TokenType::IF
    } else if w == "nil"@ {
        TokenType::NIL
    } else if w == "or"@ {
        TokenType::OR
    } else if w == "print"@ {
        TokenType::PRINT
    } else if w == "return"@ {
        TokenType::RETURN
    } else if w == "super"@ {
        TokenType::SUPER
    } else if w == "this"@ {
        TokenType::THIS
    } else if w == "true"@ {
        TokenType::TRUE
    } else if w == "var"@ {
        TokenType::VAR
    } else if w == "while"@ {
        TokenType::WHILE
    } else {
        TokenType::IDENTIFIER
    }
}

/// One lexeme, read from its first character: its kind (or the message of
/// its scan error), where it ends, and how many newlines it spans.
pub struct LexStep {
    pub kind: Result<TokenType, Seq<char>>,
    pub end: int,
    pub newlines: nat,
}

pub open spec fn step(k: TokenType, end: int) -> LexStep {
    LexStep { kind: Ok(k), end, newlines: 0 }
}

/// A one-character token, or its two-character form when `=` follows.
pub open spec fn with_equal(s: Seq<char>, i: int, one: TokenType, two: TokenType) -> LexStep {
    if i + 1 < s.len() && s[i + 1] == '=' {
        step(two, i + 2)
    } else {
        step(one, i + 1)
    }
}

/// The end of a numeral that starts at `i`: a digit run, then optionally a
/// `.` followed by another digit run.
pub open spec fn numeral_end(s: Seq<char>, i: int) -> int {
    let d = run_end(s, i + 1, Run::Digits);
    if d + 1 < s.len() && s[d] == '.' && is_digit(s[d + 1]) {
        run_end(s, d + 1, Run::Digits)
    } else {
        d
    }
}

pub open spec fn single_kind(c: char) -> Option<TokenType> {
    if c == '(' {
        Some(TokenType::LEFT_PAREN)
    } else if c == ')' {
        Some(TokenType::RIGHT_PAREN)
    } else if c == '{' {
        Some(TokenType::LEFT_BRACE)
    } else if c == '}' {
        Some(TokenType::RIGHT_BRACE)
    } else if c == ',' {
        Some(TokenType::COMMA)
    } else if c == '.' {
        Some(TokenType::DOT)
    } else if c == '-' {
        Some(TokenType::MINUS)
    } else if c == '+' {
        Some(TokenType::PLUS)
    } else if c == ';' {
        Some(TokenType::SEMICOLON)
    } else if c == '*' {
        Some(TokenType::STAR)
    } else {
        None
    }
}

/// Maximal munch at position `i` (which must hold a character).
pub open spec fn lex(s: Seq<char>, i: int) -> LexStep {
    let c = s[i];
    if single_kind(c) is Some {
        step(single_kind(c)->Some_0, i + 1)
    } else if c == '!' {
        with_equal(s, i, TokenType::BANG, TokenType::BANG_EQUAL)
    } else if c == '=' {
        with_equal(s, i, TokenType::EQUAL, TokenType::EQUAL_EQUAL)
    } else if c == '<' {
        with_equal(s, i, TokenType::LESS, TokenType::LESS_EQUAL)
    } else if c == '>' {
        with_equal(s, i, TokenType::GREATER, TokenType::GREATER_EQUAL)
    } else if c == '/' {
        if i + 1 < s.len() && s[i + 1] == '/' {
            step(TokenType::COMMENT, run_end(s, i + 1, Run::Comment))
        } else {
            step(TokenType::SLASH, i + 1)
        }
    } else if c == ' ' || c == '\r' || c == '\t' {
        step(TokenType::WHITESPACE, i + 1)
    } else if c == '\n' {
        LexStep { kind: Ok(TokenType::NEWLINE), end: i + 1, newlines: 1 }
    } else if c == '"' {
        let q = run_end(s, i + 1, Run::StringBody);
        if q < s.len() {
            LexStep { kind: Ok(TokenType::STRING), end: q + 1, newlines: newlines_in(s, i + 1, q) }
        } else {
            LexStep {
                kind: Err("Unterminated string."@),
                end: q,
                newlines: newlines_in(s, i + 1, q),
            }
        }
    } else if is_digit(c) {
        let e = numeral_end(s, i);
        if double_of_decimal(s.subrange(i, e)) is Some {
            step(TokenType::NUMBER, e)
        } else {
            LexStep { kind: Err("Invalid number."@), end: e, newlines: 0 }
        }
    } else if char_alphabetic(c) {
        let e = run_end(s, i + 1, Run::Word);
        step(word_kind(s.subrange(i, e)), e)
    } else {
        LexStep { kind: Err("Unexpected character."@), end: i + 1, newlines: 0 }
    }
}

/// The literal payload that a token of kind `k` with lexeme `w` carries.
pub open spec fn literal_of(k: TokenType, w: Seq<char>) -> LiteralModel {
    if k == TokenType::STRING {
        LiteralModel::Str(w.subrange(1, w.len() - 1))
    } else if k == TokenType::NUMBER {
        LiteralModel::Num(double_of_decimal(w)->Some_0)
    } else if k == TokenType::TRUE {
        LiteralModel::Bool(true)
    } else if k == TokenType::FALSE {
        LiteralModel::Bool(false)
    } else {
        LiteralModel::Nil
    }
}

pub open spec fn token_model(k: TokenType, w: Seq<char>, line: nat) -> TokenModel {
    TokenModel { kind: k, lexeme: w, literal: literal_of(k, w), line }
}

pub struct ScanErrorModel {
    pub line: nat,
    pub message: Seq<char>,
}

pub open spec fn error_view(e: ScanError) -> ScanErrorModel {
    ScanErrorModel { line: e.line as nat, message: e.message@ }
}

/// The tokens and scan errors of `s` from position `i` on, on line `line`.
pub open spec fn scan_from(s: Seq<char>, i: int, line: nat) -> (Seq<TokenModel>, Seq<ScanErrorModel>)
    decreases s.len() - i,
{
    if i < 0 || i >= s.len() {
        (seq![token_model(TokenType::EOF, Seq::empty(), line)], Seq::empty())
    } else {
        let l = lex(s, i);
        let line2 = line + l.newlines;
        if l.end <= i || l.end > s.len() {
            (Seq::empty(), Seq::empty())
        } else {
            let rest = scan_from(s, l.end, line2);
            match l.kind {
                Ok(k) => if ignored_kind(k) {
                    rest
                } else {
                    (seq![token_model(k, s.subrange(i, l.end), line2)] + rest.0, rest.1)
                },
                Err(m) => (rest.0, seq![ScanErrorModel { line: line2, message: m }] + rest.1),
            }
        }
    }
}

/// What scanning a whole source text yields: the token sequence and the
/// scan errors, each in source order.
pub open spec fn scan_spec(s: Seq<char>) -> (Seq<TokenModel>, Seq<ScanErrorModel>) {
    scan_from(s, 0, 1)
}

pub open spec fn tokens_view(v: Seq<Token>) -> Seq<TokenModel> {
    v.map_values(|t: Token| t@)
}

pub open spec fn errors_view(v: Seq<ScanError>) -> Seq<ScanErrorModel> {
    v.map_values(|e: ScanError| error_view(e))
}

proof fn lemma_run_end_bounds(s: Seq<char>, i: int, r: Run)
    requires
        0 <= i <= s.len(),
    ensures
        i <= run_end(s, i, r) <= s.len(),
        forall|j: int| i <= j < run_end(s, i, r) ==> in_run(#[trigger] s[j], r),
        run_end(s, i, r) < s.len() ==> !in_run(s[run_end(s, i, r)], r),
    decreases s.len() - i,
{
    if i < s.len() && in_run(s[i], r) {
        lemma_run_end_bounds(s, i + 1, r);
    }
}

fn continues_run(c: char, r: Run) -> (b: bool)
    ensures
        b == in_run(c, r),
{
    match r {
        Run::Digits => '0' <= c && c <= '9',
        Run::Word => c.is_alphanumeric(),
        Run::Comment => c != '\n',
        Run::StringBody => c != '"',
    }
}

fn single_kind_exec(c: char) -> (r: Option<TokenType>)
    ensures
        r == single_kind(c),
{
    if c == '(' {
        Some(TokenType::LEFT_PAREN)
    } else if c == ')' {
        Some(TokenType::RIGHT_PAREN)
    } else if c == '{' {
        Some(TokenType::LEFT_BRACE)
    } else if c == '}' {
        Some(TokenType::RIGHT_BRACE)
    } else if c == ',' {
        Some(TokenType::COMMA)
    } else if c == '.' {
        Some(TokenType::DOT)
    } else if c == '-' {
        Some(TokenType::MINUS)
    } else if c == '+' {
        Some(TokenType::PLUS)
    } else if c == ';' {
        Some(TokenType::SEMICOLON)
    } else if c == '*' {
        Some(TokenType::STAR)
    } else {
        None
    }
}

/// Whether `chars[a..b]` spells `w`.
fn spells(chars: &Vec<char>, a: usize, b: usize, w: &str) -> (r: bool)
    requires
        a <= b <= chars@.len(),
    ensures
        r == (chars@.subrange(a as int, b as int) == w@),
{
    let n = w.unicode_len();
    if b - a != n {
        return false;
    }
    let mut i: usize = 0;
    while i < n
        invariant
            n == w@.len(),
            b - a == n,
            a <= b <= chars@.len(),
            i <= n,
            forall|j: int| 0 <= j < i ==> chars@[a + j] == w@[j],
        decreases n - i,
    {
        if chars[a + i] != w.get_char(i) {
            assert(chars@.subrange(a as int, b as int)[i as int] != w@[i as int]);
            return false;
        }
        i = i + 1;
    }
    assert(chars@.subrange(a as int, b as int) =~= w@);
    true
}

fn word_kind_exec(chars: &Vec<char>, a: usize, b: usize) -> (k: TokenType)
    requires
        a <= b <= chars@.len(),
    ensures
        k == word_kind(chars@.subrange(a as int, b as int)),
{
    if spells(chars, a, b, "and") {
        TokenType::AND
    } else if spells(chars, a, b, "class") {
        TokenType::CLASS
    } else if spells(chars, a, b, "else") {
        TokenType::ELSE
    } else if spells(chars, a, b, "false") {
        TokenType::FALSE
    } else if spells(chars, a, b, "for") {
        TokenType::FOR
    } else if spells(chars, a, b, "fun") {
        TokenType::FUN
    } else if spells(chars, a, b, "if") {
        TokenType::IF
    } else if spells(chars, a, b, "nil") {
        TokenType::NIL
    } else if spells(chars, a, b, "or") {
        TokenType::OR
    } else if spells(chars, a, b, "print") {
        TokenType::PRINT
    } else if spells(chars, a, b, "return") {
        TokenType::RETURN
    } else if spells(chars, a, b, "super") {
        TokenType::SUPER
    } else if spells(chars, a, b, "this") {
        TokenType::THIS
    } else if spells(chars, a, b, "true") {
        TokenType::TRUE
    } else if spells(chars, a, b, "var") {
        TokenType::VAR
    } else if spells(chars, a, b, "while") {
        TokenType::WHILE
    } else {
        TokenType::IDENTIFIER
    }
}

proof fn lemma_newlines_bound(s: Seq<char>, a: int, b: int)
    requires
        a <= b,
    ensures
        newlines_in(s, a, b) <= b - a,
    decreases b - a,
{
    if a < b {
        lemma_newlines_bound(s, a, b - 1);
    }
}

/// The scanner's cursor over one source text.
pub struct Scanner {
    source: String,
    chars: Vec<char>,
    tokens: Vec<Token>,
    errors: Vec<ScanError>,
    start: usize,
    current: usize,
    line: usize,
}

impl Scanner {
    pub closed spec fn text(&self) -> Seq<char> {
        self.source@
    }

    pub closed spec fn error_list(&self) -> Seq<ScanError> {
        self.errors@
    }

    /// Nothing scanned yet.
    pub closed spec fn fresh(&self) -> bool {
        &&& self.current == 0
        &&& self.line == 1
        &&& self.tokens@.len() == 0
        &&& self.errors@.len() == 0
    }

    pub closed spec fn cursor_ok(&self) -> bool {
        &&& self.chars@ == self.source@
        &&& self.chars@.len() < usize::MAX
        &&& self.start <= self.current <= self.chars@.len()
    }

    pub closed spec fn wf(&self) -> bool {
        &&& self.cursor_ok()
        &&& self.line <= self.current + 1
        &&& tokens_view(self.tokens@) + scan_from(self.chars@, self.current as int, self.line as nat).0
            == scan_spec(self.chars@).0
        &&& errors_view(self.errors@) + scan_from(self.chars@, self.current as int, self.line as nat).1
            == scan_spec(self.chars@).1
    }

    pub fn new(source: String) -> (r: Scanner)
        requires
            source@.len() < usize::MAX,
        ensures
            r.wf(),
            r.fresh(),
            r.text() == source@,
    {
        let n = source.as_str().unicode_len();
        let mut chars: Vec<char> = Vec::new();
        let mut i: usize = 0;
        while i < n
            invariant
                n == source@.len(),
                i <= n,
                chars@ == source@.subrange(0, i as int),
            decreases n - i,
        {
            chars.push(source.as_str().get_char(i));
            i = i + 1;
        }
        assert(chars@ =~= source@);
        let r = Scanner {
            source,
            chars,
            tokens: Vec::new(),
            errors: Vec::new(),
            start: 0,
            current: 0,
            line: 1,
        };
        assert(tokens_view(r.tokens@) =~= Seq::empty());
        assert(errors_view(r.errors@) =~= Seq::empty());
        assert(tokens_view(r.tokens@) + scan_from(r.chars@, 0, 1).0 =~= scan_spec(r.chars@).0);
        assert(errors_view(r.errors@) + scan_from(r.chars@, 0, 1).1 =~= scan_spec(r.chars@).1);
        r
    }

    /// Scans the whole text: the tokens in source order, ended by one
    /// end-of-input token. The scan errors are kept and can be read with
    /// `errors`.
    pub fn scan_tokens(&mut self) -> (r: Vec<Token>)
        requires
            old(self).wf(),
            old(self).fresh(),
        ensures
            tokens_view(r@) == scan_spec(old(self).text()).0,
            errors_view(final(self).error_list()) == scan_spec(old(self).text()).1,
            final(self).text() == old(self).text(),
    {
        while !self.is_at_end()
            invariant
                self.wf(),
                self.text() == old(self).text(),
            decreases self.chars@.len() - self.current,
        {
            self.start = self.current;
            let ghost s = self.chars@;
            let ghost i = self.current as int;
            let ghost line0 = self.line as nat;
            let ghost tv0 = tokens_view(self.tokens@);
            let ghost ev0 = errors_view(self.errors@);
            let res = self.scan_token();
            proof {
                let l = lex(s, i);
                assert(l.end > i);
                assert(scan_from(s, i, line0) == {
                    let rest = scan_from(s, l.end, line0 + l.newlines);
                    match l.kind {
                        Ok(k) => if ignored_kind(k) {
                            rest
                        } else {
                            (seq![token_model(k, s.subrange(i, l.end), line0 + l.newlines)] + rest.0, rest.1)
                        },
                        Err(m) => (rest.0, seq![ScanErrorModel { line: line0 + l.newlines, message: m }] + rest.1),
                    }
                });
            }
            match res {
                Ok(token) => {
                    if !token.token_type.is_ignored() {
                        self.tokens.push(token);
                        proof {
                            assert(tokens_view(self.tokens@) =~= tv0 + seq![token@]);
                        }
                    }
                },
                Err(e) => {
                    self.errors.push(e);
                    proof {
                        assert(errors_view(self.errors@) =~= ev0 + seq![error_view(e)]);
                    }
                },
            }
            proof {
                let rest = scan_from(s, self.current as int, self.line as nat);
                assert(tokens_view(self.tokens@) + rest.0 =~= scan_spec(s).0);
                assert(errors_view(self.errors@) + rest.1 =~= scan_spec(s).1);
            }
        }
        let ghost tv0 = tokens_view(self.tokens@);
        let eof = Token::new(TokenType::EOF, "", Literal::Nil, self.line);
        proof {
            reveal_strlit("");
            assert(eof@.lexeme =~= Seq::<char>::empty());
            assert(eof@ == token_model(TokenType::EOF, Seq::empty(), self.line as nat));
        }
        self.tokens.push(eof);
        assert(tokens_view(self.tokens@) =~= tv0 + seq![eof@]);
        assert(tokens_view(self.tokens@) =~= scan_spec(self.chars@).0);
        let mut out: Vec<Token> = Vec::new();
        std::mem::swap(&mut out, &mut self.tokens);
        out
    }

    /// Hands over the scan errors met so far, in source order.
    pub fn take_errors(&mut self) -> (r: Vec<ScanError>)
        ensures
            r@ == old(self).error_list(),
            final(self).text() == old(self).text(),
    {
        let mut out: Vec<ScanError> = Vec::new();
        std::mem::swap(&mut out, &mut self.errors);
        out
    }

    /// The scan errors met so far, in source order.
    pub fn errors(&self) -> (r: &Vec<ScanError>)
        ensures
            r@ == self.error_list(),
    {
        &self.errors
    }

    fn is_at_end(&self) -> (r: bool)
        requires
            self.cursor_ok(),
        ensures
            r == (self.current >= self.chars@.len()),
    {
        self.current >= self.chars.len()
    }

    /// The character under the cursor, or `'\0'` past the end.
    fn peek(&self) -> (c: char)
        requires
            self.cursor_ok(),
        ensures
            self.current < self.chars@.len() ==> c == self.chars@[self.current as int],
            self.current >= self.chars@.len() ==> c == '\0',
    {
        if self.current >= self.chars.len() {
            '\0'
        } else {
            self.chars[self.current]
        }
    }

    /// The character after the one under the cursor, or `'\0'` past the end.
    fn peek_next(&self) -> (c: char)
        requires
            self.cursor_ok(),
        ensures
            self.current + 1 < self.chars@.len() ==> c == self.chars@[self.current + 1],
            self.current + 1 >= self.chars@.len() ==> c == '\0',
    {
        if self.current + 1 >= self.chars.len() {
            '\0'
        } else {
            self.chars[self.current + 1]
        }
    }

    fn match_char(&self, c: char) -> (r: bool)
        requires
            self.cursor_ok(),
        ensures
            r == (self.current < self.chars@.len() && self.chars@[self.current as int] == c),
    {
        self.current < self.chars.len() && self.chars[self.current] == c
    }

    /// The same scanner state, but for the cursor and line.
    pub closed spec fn same_text(&self, o: &Scanner) -> bool {
        &&& self.chars@ == o.chars@
        &&& self.source@ == o.source@
        &&& self.start == o.start
        &&& self.tokens@ == o.tokens@
        &&& self.errors@ == o.errors@
    }

    /// Scans the lexeme that starts under the cursor.
    fn scan_token(&mut self) -> (r: Result<Token, ScanError>)
        requires
            old(self).wf(),
            old(self).start == old(self).current,
            old(self).current < old(self).chars@.len(),
        ensures
            ({
                let s = old(self).chars@;
                let i = old(self).current as int;
                let l = lex(s, i);
                let line2 = (old(self).line + l.newlines) as nat;
                &&& final(self).same_text(old(self))
                &&& final(self).cursor_ok()
                &&& final(self).current == l.end
                &&& final(self).line == line2
                &&& i < l.end <= s.len()
                &&& line2 <= l.end + 1
                &&& (l.kind is Ok ==> r is Ok && r->Ok_0@ == token_model(l.kind->Ok_0, s.subrange(i, l.end), line2))
                &&& (l.kind is Err ==> r is Err && error_view(r->Err_0) == ScanErrorModel { line: line2, message: l.kind->Err_0 })
            }),
    {
        let ghost s = self.chars@;
        let ghost i = self.current as int;
        let c = self.chars[self.current];
        self.current = self.current + 1;
        let single = single_kind_exec(c);
        if let Some(k) = single {
            return Ok(self.create_token(k));
        }
        if c == '!' {
            Ok(self.two_char(TokenType::BANG, TokenType::BANG_EQUAL))
        } else if c == '=' {
            Ok(self.two_char(TokenType::EQUAL, TokenType::EQUAL_EQUAL))
        } else if c == '<' {
            Ok(self.two_char(TokenType::LESS, TokenType::LESS_EQUAL))
        } else if c == '>' {
            Ok(self.two_char(TokenType::GREATER, TokenType::GREATER_EQUAL))
        } else if c == '/' {
            if self.match_char('/') {
                self.skip_run(Run::Comment);
                proof {
                    lemma_run_end_bounds(s, i + 1, Run::Comment);
                }
                Ok(self.create_token(TokenType::COMMENT))
            } else {
                Ok(self.create_token(TokenType::SLASH))
            }
        } else if c == ' ' || c == '\r' || c == '\t' {
            Ok(self.create_token(TokenType::WHITESPACE))
        } else if c == '\n' {
            self.line = self.line + 1;
            Ok(self.create_token(TokenType::NEWLINE))
        } else if c == '"' {
            self.scan_string()
        } else if '0' <= c && c <= '9' {
            self.scan_number()
        } else if c.is_alphabetic() {
            self.scan_identifier()
        } else {
            Err(ScanError::new(self.line, "Unexpected character."))
        }
    }

    /// Ends a token that may take a following `=`.
    fn two_char(&mut self, one: TokenType, two: TokenType) -> (t: Token)
        requires
            literal_of(one, Seq::empty()) == LiteralModel::Nil,
            literal_of(two, Seq::empty()) == LiteralModel::Nil,
            old(self).cursor_ok(),
            old(self).current == old(self).start + 1,
        ensures
            ({
                let s = old(self).chars@;
                let i = old(self).start as int;
                let l = with_equal(s, i, one, two);
                &&& final(self).same_text(old(self))
                &&& final(self).cursor_ok()
                &&& old(self).start < final(self).current
                &&& final(self).current == l.end
                &&& final(self).line == old(self).line
                &&& t@ == token_model(l.kind->Ok_0, s.subrange(i, l.end), old(self).line as nat)
            }),
    {
        if self.match_char('=') {
            self.current = self.current + 1;
            self.create_token(two)
        } else {
            self.create_token(one)
        }
    }

    /// A string literal whose opening quote has been read.
    fn scan_string(&mut self) -> (r: Result<Token, ScanError>)
        requires
            old(self).cursor_ok(),
            old(self).current == old(self).start + 1,
            old(self).chars@[old(self).start as int] == '"',
            old(self).line <= old(self).start + 1,
        ensures
            ({
                let s = old(self).chars@;
                let i = old(self).start as int;
                let l = lex(s, i);
                let line2 = (old(self).line + l.newlines) as nat;
                &&& final(self).same_text(old(self))
                &&& final(self).cursor_ok()
                &&& old(self).start < final(self).current
                &&& final(self).current == l.end
                &&& final(self).line == line2
                &&& line2 <= l.end + 1
                &&& (l.kind is Ok ==> r is Ok && r->Ok_0@ == token_model(l.kind->Ok_0, s.subrange(i, l.end), line2))
                &&& (l.kind is Err ==> r is Err && error_view(r->Err_0) == ScanErrorModel { line: line2, message: l.kind->Err_0 })
            }),
    {
        let ghost s = self.chars@;
        let ghost i = self.start as int;
        let ghost line0 = self.line;
        proof {
            lemma_run_end_bounds(s, i + 1, Run::StringBody);
        }
        while self.current < self.chars.len() && self.chars[self.current] != '"'
            invariant
                self.chars@ == s,
                self.cursor_ok(),
                self.start == i,
                i + 1 <= self.current <= s.len(),
                s.len() < usize::MAX,
                line0 <= i + 1,
                run_end(s, self.current as int, Run::StringBody) == run_end(s, i + 1, Run::StringBody),
                self.line == line0 + newlines_in(s, i + 1, self.current as int),
                self.source@ == old(self).source@,
                self.tokens@ == old(self).tokens@,
                self.errors@ == old(self).errors@,
            decreases s.len() - self.current,
        {
            proof {
                lemma_newlines_bound(s, i + 1, self.current as int);
            }
            if self.chars[self.current] == '\n' {
                self.line = self.line + 1;
            }
            self.current = self.current + 1;
        }
        proof {
            lemma_newlines_bound(s, i + 1, self.current as int);
        }
        if self.current >= self.chars.len() {
            return Err(ScanError::new(self.line, "Unterminated string."));
        }
        self.current = self.current + 1;
        let text = self.source.as_str().substring_char(self.start + 1, self.current - 1).to_owned();
        let t = self.create_token_with_literal(TokenType::STRING, Literal::String(text));
        assert(s.subrange(i, self.current as int).subrange(1, self.current - i - 1)
            =~= s.subrange(i + 1, self.current - 1));
        Ok(t)
    }

    /// A numeral whose first digit has been read.
    fn scan_number(&mut self) -> (r: Result<Token, ScanError>)
        requires
            old(self).cursor_ok(),
            old(self).current == old(self).start + 1,
            is_digit(old(self).chars@[old(self).start as int]),
        ensures
            ({
                let s = old(self).chars@;
                let i = old(self).start as int;
                let l = lex(s, i);
                &&& final(self).same_text(old(self))
                &&& final(self).cursor_ok()
                &&& old(self).start < final(self).current
                &&& final(self).current == l.end
                &&& final(self).line == old(self).line
                &&& (l.kind is Ok ==> r is Ok && r->Ok_0@ == token_model(l.kind->Ok_0, s.subrange(i, l.end), old(self).line as nat))
                &&& (l.kind is Err ==> r is Err && error_view(r->Err_0) == ScanErrorModel { line: old(self).line as nat, message: l.kind->Err_0 })
            }),
    {
        let ghost s = self.chars@;
        let ghost i = self.start as int;
        self.skip_run(Run::Digits);
        proof {
            lemma_run_end_bounds(s, i + 1, Run::Digits);
        }
        if self.peek() == '.' && {
            let n = self.peek_next();
            '0' <= n && n <= '9'
        } {
            self.current = self.current + 1;
            proof {
                lemma_run_end_bounds(s, self.current as int, Run::Digits);
            }
            self.skip_run(Run::Digits);
        }
        let text = self.source.as_str().substring_char(self.start, self.current);
        match Number::parse_decimal(text) {
            Some(n) => Ok(self.create_token_with_literal(TokenType::NUMBER, Literal::Number(n))),
            None => Err(ScanError::new(self.line, "Invalid number.")),
        }
    }

    /// An identifier or reserved word whose first letter has been read.
    fn scan_identifier(&mut self) -> (r: Result<Token, ScanError>)
        requires
            old(self).cursor_ok(),
            old(self).current == old(self).start + 1,
            char_alphabetic(old(self).chars@[old(self).start as int]),
        ensures
            ({
                let s = old(self).chars@;
                let i = old(self).start as int;
                let e = run_end(s, i + 1, Run::Word);
                let k = word_kind(s.subrange(i, e));
                &&& final(self).same_text(old(self))
                &&& final(self).cursor_ok()
                &&& old(self).start < final(self).current
                &&& final(self).current == e
                &&& final(self).line == old(self).line
                &&& r is Ok && r->Ok_0@ == token_model(k, s.subrange(i, e), old(self).line as nat)
            }),
    {
        let ghost s = self.chars@;
        self.skip_run(Run::Word);
        proof {
            lemma_run_end_bounds(s, self.start + 1, Run::Word);
        }
        let k = word_kind_exec(&self.chars, self.start, self.current);
        if k == TokenType::TRUE {
            Ok(self.create_token_with_literal(k, Literal::Boolean(true)))
        } else if k == TokenType::FALSE {
            Ok(self.create_token_with_literal(k, Literal::Boolean(false)))
        } else {
            Ok(self.create_token(k))
        }
    }

    fn create_token(&self, k: TokenType) -> (t: Token)
        requires
            self.cursor_ok(),
        ensures
            t@ == (TokenModel {
                kind: k,
                lexeme: self.chars@.subrange(self.start as int, self.current as int),
                literal: LiteralModel::Nil,
                line: self.line as nat,
            }),
    {
        self.create_token_with_literal(k, Literal::Nil)
    }

    fn create_token_with_literal(&self, k: TokenType, literal: Literal) -> (t: Token)
        requires
            self.cursor_ok(),
        ensures
            t@ == (TokenModel {
                kind: k,
                lexeme: self.chars@.subrange(self.start as int, self.current as int),
                literal: literal@,
                line: self.line as nat,
            }),
    {
        let text = self.source.as_str().substring_char(self.start, self.current);
        Token::new(k, text, literal, self.line)
    }

    /// Moves the cursor over the run that starts under it.
    fn skip_run(&mut self, r: Run)
        requires
            old(self).cursor_ok(),
        ensures
            final(self).current == run_end(old(self).chars@, old(self).current as int, r),
            final(self).cursor_ok(),
            final(self).chars@ == old(self).chars@,
            final(self).source@ == old(self).source@,
            final(self).start == old(self).start,
            final(self).line == old(self).line,
            final(self).tokens@ == old(self).tokens@,
            final(self).errors@ == old(self).errors@,
    {
        let ghost s = self.chars@;
        let ghost i0 = self.current as int;
        proof {
            lemma_run_end_bounds(s, i0, r);
        }
        while self.current < self.chars.len() && continues_run(self.chars[self.current], r)
            invariant
                self.chars@ == s,
                i0 <= self.current <= s.len(),
                run_end(s, self.current as int, r) == run_end(s, i0, r),
                self.cursor_ok(),
                self.source@ == old(self).source@,
                self.start == old(self).start,
                self.line == old(self).line,
                self.tokens@ == old(self).tokens@,
                self.errors@ == old(self).errors@,
            decreases s.len() - self.current,
        {
            self.current = self.current + 1;
        }
    }
}

} // verus!

verus! {

/// The kind of an operator spelling of one or two characters, if `w` is one.
pub open spec fn operator_kind(w: Seq<char>) -> Option<TokenType> {
    if w.len() == 1 {
        let c = w[0];
        if single_kind(c) is Some {
            single_kind(c)
        } else if c == '/' {
            Some(TokenType::SLASH)
        } else if c == '!' {
            Some(TokenType::BANG)
        } else if c == '=' {
            Some(TokenType::EQUAL)
        } else if c == '<' {
            Some(TokenType::LESS)
        } else if c == '>' {
            Some(TokenType::GREATER)
        } else {
            None
        }
    } else if w.len() == 2 && w[1] == '=' {
        let c = w[0];
        if c == '!' {
            Some(TokenType::BANG_EQUAL)
        } else if c == '=' {
            Some(TokenType::EQUAL_EQUAL)
        } else if c == '<' {
            Some(TokenType::LESS_EQUAL)
        } else if c == '>' {
            Some(TokenType::GREATER_EQUAL)
        } else {
            None
        }
    } else {
        None
    }
}

/// An operator spelled alone scans to exactly one token of its kind, with
/// its spelling as lexeme, on line 1, followed by the end marker.
pub proof fn lemma_operator_scans_alone(w: Seq<char>)
    requires
        operator_kind(w) is Some,
    ensures
        scan_spec(w).0 == seq![
            token_model(operator_kind(w)->Some_0, w, 1),
            token_model(TokenType::EOF, Seq::empty(), 1),
        ],
        scan_spec(w).1 == Seq::<ScanErrorModel>::empty(),
{
    let l = lex(w, 0);
    assert(l.end == w.len() && l.kind == Ok::<TokenType, Seq<char>>(operator_kind(w)->Some_0));
    assert(l.newlines == 0);
    let rest = scan_from(w, w.len() as int, 1);
    assert(rest == (seq![token_model(TokenType::EOF, Seq::empty(), 1)], Seq::<ScanErrorModel>::empty()));
    assert(w.subrange(0, w.len() as int) =~= w);
}

proof fn lemma_run_to_end(s: Seq<char>, i: int, r: Run)
    requires
        0 <= i <= s.len(),
        forall|j: int| i <= j < s.len() ==> in_run(#[trigger] s[j], r),
    ensures
        run_end(s, i, r) == s.len(),
    decreases s.len() - i,
{
    if i < s.len() {
        lemma_run_to_end(s, i + 1, r);
    }
}

/// A string literal that is never closed yields one scan error, on the line
/// where the text ends, and no token; the token sequence still ends with the
/// end marker.
pub proof fn lemma_unterminated_string(s: Seq<char>, i: int, line: nat)
    requires
        0 <= i < s.len(),
        s[i] == '"',
        forall|j: int| i < j < s.len() ==> s[j] != '"',
    ensures
        ({
            let last = line + newlines_in(s, i + 1, s.len() as int);
            scan_from(s, i, line) == (
                seq![token_model(TokenType::EOF, Seq::empty(), last)],
                seq![ScanErrorModel { line: last, message: "Unterminated string."@ }],
            )
        }),
{
    lemma_run_to_end(s, i + 1, Run::StringBody);
    let l = lex(s, i);
    assert(l.end == s.len());
    let last = line + newlines_in(s, i + 1, s.len() as int);
    assert(scan_from(s, s.len() as int, last) == (
        seq![token_model(TokenType::EOF, Seq::empty(), last)],
        Seq::<ScanErrorModel>::empty(),
    ));
    assert(seq![ScanErrorModel { line: last, message: "Unterminated string."@ }] + Seq::<ScanErrorModel>::empty()
        =~= seq![ScanErrorModel { line: last, message: "Unterminated string."@ }]);
}

} // verus!

verus! {

/// Scanning yields a non-empty token sequence whose last token is the end
/// marker.
pub proof fn lemma_scan_ends_with_eof(s: Seq<char>, i: int, line: nat)
    ensures
        scan_from(s, i, line).0.len() > 0 ==> scan_from(s, i, line).0.last().kind == TokenType::EOF,
        i >= 0 && (i >= s.len() || lex(s, i).end > i) ==> scan_from(s, i, line).0.len() > 0,
    decreases s.len() - i,
{
    if 0 <= i < s.len() {
        let l = lex(s, i);
        if l.end > i && l.end <= s.len() {
            lemma_scan_ends_with_eof(s, l.end, line + l.newlines);
            lemma_lex_progress(s, l.end);
        }
        lemma_lex_progress(s, i);
    }
}

/// Every lexeme takes at least one character and stays within the text.
pub proof fn lemma_lex_progress(s: Seq<char>, i: int)
    ensures
        0 <= i < s.len() ==> i < lex(s, i).end <= s.len(),
{
    if 0 <= i < s.len() {
        lemma_run_end_bounds(s, i + 1, Run::Comment);
        lemma_run_end_bounds(s, i + 1, Run::StringBody);
        lemma_run_end_bounds(s, i + 1, Run::Digits);
        lemma_run_end_bounds(s, i + 1, Run::Word);
        let d = run_end(s, i + 1, Run::Digits);
        if d + 1 < s.len() {
            lemma_run_end_bounds(s, d + 1, Run::Digits);
        }
    }
}

} // verus!
