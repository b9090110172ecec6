//! The scanner: a single forward pass over source text with a two-cursor
//! window (`start`, `current`) and a 1-based line counter, emitting the token
//! sequence that [`crate::scan_model`] describes.

use vstd::prelude::*;
use vstd::string::StrSliceExecFns;
use vstd::string::StringExecFns;
use crate::reporter::CodeReporter;
use crate::token::{Token, TokenType};
use crate::scan_model::{
    broken_string_msg, comment_end, ident_end, is_alnum_char, is_alpha_char, is_digit_char,
    keyword_kind, num_scan, scan_diags, scan_diags_from, scan_tokens, scan_tokens_from,
    step, step_token, string_scan, lemma_step_bounds, lemma_string_scan_bounds,
};

verus! {

/// The character the cursor helpers hand back at the end of input.
pub open spec fn peek_char(src: Seq<char>, pos: nat) -> char {
    if pos < src.len() {
        src[pos as int]
    } else {
        '\0'
    }
}

fn is_digit_exec(c: char) -> (b: bool)
    ensures
        b == is_digit_char(c),
{
    let n = c as u32;
    48 <= n && n <= 57
}

fn is_alpha_exec(c: char) -> (b: bool)
    ensures
        b == is_alpha_char(c),
{
    let n = c as u32;
    (97 <= n && n <= 122) || (65 <= n && n <= 90)
}

fn is_alnum_exec(c: char) -> (b: bool)
    ensures
        b == is_alnum_char(c),
{
    is_alpha_exec(c) || is_digit_exec(c)
}

/// Character-stream to token-stream. Pure but for its cursor and line
/// counters, which every scan resets; malformed string literals are reported
/// to the owned diagnostics sink.
pub struct Scanner {
    pub reporter: CodeReporter,
    pub source: String,
    pub file_name: String,
    pub start: usize,
    pub current: usize,
    pub line: usize,
}

impl Scanner {
    /// The cursor pair sits inside the source, `start` at or before `current`.
    pub open spec fn wf(self) -> bool {
        self.start <= self.current <= self.source@.len() && self.source@.len() <= usize::MAX
    }

    pub fn new(reporter: CodeReporter) -> (s: Self)
        ensures
            s.reporter == reporter,
            s.source@ =~= Seq::<char>::empty(),
            s.file_name@ =~= Seq::<char>::empty(),
            s.start == 0,
            s.current == 0,
            s.line == 1,
            s.wf(),
    {
        Scanner {
            reporter,
            source: String::new(),
            file_name: String::new(),
            start: 0,
            current: 0,
            line: 1,
        }
    }

    /// The diagnostics sink, for inspection after a scan.
    pub fn reporter(&self) -> (r: &CodeReporter)
        ensures
            r == self.reporter,
    {
        &self.reporter
    }

    fn is_at_end(&self) -> (b: bool)
        ensures
            b == (self.current >= self.source@.len()),
    {
        self.current >= self.source.as_str().unicode_len()
    }

    fn advance(&mut self) -> (c: char)
        requires
            old(self).current < old(self).source@.len(),
            old(self).source@.len() <= usize::MAX,
        ensures
            c == old(self).source@[old(self).current as int],
            final(self).current == old(self).current + 1,
            final(self).source == old(self).source,
            final(self).file_name == old(self).file_name,
            final(self).start == old(self).start,
            final(self).line == old(self).line,
            final(self).reporter == old(self).reporter,
    {
        let character = self.source.as_str().get_char(self.current);
        self.current = self.current + 1;
        character
    }

    fn peek(&self) -> (c: char)
        ensures
            c == peek_char(self.source@, self.current as nat),
    {
        if self.is_at_end() {
            return '\0';
        }
        self.source.as_str().get_char(self.current)
    }

    fn double_peek(&self) -> (c: char)
        ensures
            c == peek_char(self.source@, (self.current + 1) as nat),
    {
        let len = self.source.as_str().unicode_len();
        if self.current >= len {
            return '\0';
        }
        if self.current + 1 >= len {
            return '\0';
        }
        self.source.as_str().get_char(self.current + 1)
    }

    fn matches_character(&mut self, expected: char) -> (b: bool)
        requires
            old(self).current <= old(self).source@.len(),
            old(self).source@.len() <= usize::MAX,
        ensures
            b == (old(self).current < old(self).source@.len()
                && old(self).source@[old(self).current as int] == expected),
            final(self).current as int == if b {
                old(self).current + 1
            } else {
                old(self).current as int
            },
            final(self).source == old(self).source,
            final(self).file_name == old(self).file_name,
            final(self).start == old(self).start,
            final(self).line == old(self).line,
            final(self).reporter == old(self).reporter,
    {
        if self.is_at_end() {
            return false;
        }
        let character = self.source.as_str().get_char(self.current);
        if character != expected {
            return false;
        }
        self.current = self.current + 1;
        true
    }

    fn scan_number(&mut self) -> (t: TokenType)
        requires
            old(self).wf(),
        ensures
            final(self).current == num_scan(old(self).source@, old(self).current as nat).end,
            t == (if num_scan(old(self).source@, old(self).current as nat).is_float {
                TokenType::FLOAT
            } else {
                TokenType::INT
            }),
            final(self).source == old(self).source,
            final(self).file_name == old(self).file_name,
            final(self).start == old(self).start,
            final(self).line == old(self).line,
            final(self).reporter == old(self).reporter,
            final(self).wf(),
    {
        let ghost src = self.source@;
        let ghost pos0 = self.current as nat;
        let mut token_type = TokenType::INT;

        while is_digit_exec(self.peek())
            || (self.peek() == '.' && is_digit_exec(self.double_peek()))
            invariant
                self.source == old(self).source,
                self.source@ == src,
                src.len() <= usize::MAX,
                pos0 == old(self).current as nat,
                self.start <= pos0 <= self.current <= src.len(),
                num_scan(src, pos0).end == num_scan(src, self.current as nat).end,
                num_scan(src, pos0).is_float == (token_type == TokenType::FLOAT
                    || num_scan(src, self.current as nat).is_float),
                token_type == TokenType::FLOAT || token_type == TokenType::INT,
                self.file_name == old(self).file_name,
                self.start == old(self).start,
                self.line == old(self).line,
                self.reporter == old(self).reporter,
            decreases src.len() - self.current,
        {
            if self.peek() == '.' {
                token_type = TokenType::FLOAT;
            }
            self.advance();
        }
        token_type
    }

    fn scan_identifier(&mut self) -> (t: TokenType)
        requires
            old(self).wf(),
        ensures
            final(self).current == ident_end(old(self).source@, old(self).current as nat),
            t == keyword_kind(
                old(self).source@.subrange(
                    old(self).start as int,
                    ident_end(old(self).source@, old(self).current as nat) as int,
                ),
            ),
            final(self).source == old(self).source,
            final(self).file_name == old(self).file_name,
            final(self).start == old(self).start,
            final(self).line == old(self).line,
            final(self).reporter == old(self).reporter,
            final(self).wf(),
    {
        let ghost src = self.source@;
        let ghost pos0 = self.current as nat;

        while is_alnum_exec(self.peek())
            invariant
                self.source == old(self).source,
                self.source@ == src,
                src.len() <= usize::MAX,
                pos0 == old(self).current as nat,
                self.start <= pos0 <= self.current <= src.len(),
                ident_end(src, pos0) == ident_end(src, self.current as nat),
                self.file_name == old(self).file_name,
                self.start == old(self).start,
                self.line == old(self).line,
                self.reporter == old(self).reporter,
            decreases src.len() - self.current,
        {
            self.advance();
        }

        let token_str = self.get_current_token_string();

        if token_str == String::from_str("const") {
            TokenType::CONST
        } else if token_str == String::from_str("fun") {
            TokenType::FUNCTION
        } else if token_str == String::from_str("print") {
            TokenType::PRINT
        } else if token_str == String::from_str("if") {
            TokenType::IF
        } else if token_str == String::from_str("else") {
            TokenType::ELSE
        } else if token_str == String::from_str("while") {
            TokenType::WHILE
        } else if token_str == String::from_str("true") {
            TokenType::TRUE
        } else if token_str == String::from_str("false") {
            TokenType::FALSE
        } else {
            TokenType::IDENTIFIER
        }
    }

    fn scan_string_token(&mut self) -> (t: TokenType)
        requires
            old(self).wf(),
        ensures
            final(self).current == string_scan(old(self).source@, old(self).current as nat).end,
            t == string_scan(old(self).source@, old(self).current as nat).kind,
            final(self).source == old(self).source,
            final(self).file_name == old(self).file_name,
            final(self).start == old(self).start,
            final(self).line == old(self).line,
            final(self).wf(),
            if string_scan(old(self).source@, old(self).current as nat).diag {
                final(self).reporter.has_error && final(self).reporter.diagnostics.deep_view()
                    =~= old(self).reporter.diagnostics.deep_view().push(
                    crate::reporter::DiagModel {
                        file: old(self).file_name@,
                        line: old(self).line as nat,
                        message: broken_string_msg(),
                    },
                )
            } else {
                final(self).reporter == old(self).reporter
            },
    {
        let ghost src = self.source@;
        let ghost pos0 = self.current as nat;

        while self.peek() != '"' && !self.is_at_end()
            invariant
                self.source == old(self).source,
                self.source@ == src,
                src.len() <= usize::MAX,
                pos0 == old(self).current as nat,
                self.start <= pos0 <= self.current <= src.len(),
                string_scan(src, pos0) == string_scan(src, self.current as nat),
                self.file_name == old(self).file_name,
                self.start == old(self).start,
                self.line == old(self).line,
                self.reporter == old(self).reporter,
            decreases src.len() - self.current,
        {
            if self.peek() == '\n' {
                proof {
                    assert(string_scan(src, pos0) == string_scan(src, self.current as nat));
                }
                let message = String::from_str("Broken string");
                self.reporter.report_error(&self.file_name, self.line, &message);
                return TokenType::INVALID;
            }
            self.advance();
        }

        if self.is_at_end() {
            let message = String::from_str("Broken string");
            self.reporter.report_error(&self.file_name, self.line, &message);
            return TokenType::INVALID;
        }

        // The closing quote
        self.advance();
        TokenType::STRING
    }

    fn create_token(&self, token_type: TokenType) -> (t: Token)
        requires
            self.wf(),
            token_type == TokenType::STRING ==> self.start + 2 <= self.current,
        ensures
            t@.kind == token_type,
            t@.lexeme == (if token_type == TokenType::STRING {
                self.source@.subrange(self.start as int + 1, self.current as int - 1)
            } else {
                self.source@.subrange(self.start as int, self.current as int)
            }),
            t@.file == self.file_name@,
            t@.line == self.line as nat,
    {
        let mut range_beginning = self.start;
        let mut range_ending = self.current;

        if token_type == TokenType::STRING {
            range_beginning = range_beginning + 1;
            range_ending = range_ending - 1;
        }

        let lexeme = String::from_str(
            self.source.as_str().substring_char(range_beginning, range_ending),
        );
        Token::new(token_type, lexeme, self.file_name.clone(), self.line)
    }

    fn get_current_token_string(&self) -> (s: String)
        requires
            self.wf(),
        ensures
            s@ == self.source@.subrange(self.start as int, self.current as int),
    {
        String::from_str(self.source.as_str().substring_char(self.start, self.current))
    }

    /// Scans the single token that starts at the cursor; afterwards `start`
    /// and `current` delimit exactly its span.
    fn scan_token(&mut self) -> (t: Token)
        requires
            old(self).wf(),
            old(self).current < old(self).source@.len(),
        ensures
            final(self).current == step(old(self).source@, old(self).current as nat).next,
            final(self).start == old(self).current,
            t@ == step_token(
                old(self).file_name@,
                old(self).source@,
                old(self).current as nat,
                old(self).line as nat,
            ),
            final(self).source == old(self).source,
            final(self).file_name == old(self).file_name,
            final(self).line == old(self).line,
            final(self).wf(),
            if step(old(self).source@, old(self).current as nat).diag {
                final(self).reporter.has_error && final(self).reporter.diagnostics.deep_view()
                    =~= old(self).reporter.diagnostics.deep_view().push(
                    crate::reporter::DiagModel {
                        file: old(self).file_name@,
                        line: old(self).line as nat,
                        message: broken_string_msg(),
                    },
                )
            } else {
                final(self).reporter == old(self).reporter
            },
    {
        let ghost src = self.source@;
        let ghost p = self.current as nat;

        self.start = self.current;
        let character = self.advance();

        let token_type = if character == '(' {
            TokenType::LeftParen
        } else if character == ')' {
            TokenType::RightParen
        } else if character == ',' {
            TokenType::COMMA
        } else if character == '.' {
            TokenType::DOT
        } else if character == '+' {
            TokenType::PLUS
        } else if character == '-' {
            TokenType::MINUS
        } else if character == '!' {
            if self.matches_character('=') {
                TokenType::BangEqual
            } else {
                TokenType::BANG
            }
        } else if character == '=' {
            if self.matches_character('=') {
                TokenType::EqualEqual
            } else {
                TokenType::EQUAL
            }
        } else if character == '#' {
            while self.peek() != '\n' && !self.is_at_end()
                invariant
                    self.source == old(self).source,
                    self.source@ == src,
                    src.len() <= usize::MAX,
                    p == old(self).current as nat,
                    self.start <= self.current <= src.len(),
                    p + 1 <= self.current,
                    comment_end(src, (p + 1) as nat) == comment_end(src, self.current as nat),
                    self.start == p,
                    self.file_name == old(self).file_name,
                    self.line == old(self).line,
                    self.reporter == old(self).reporter,
                decreases src.len() - self.current,
            {
                self.advance();
            }
            TokenType::COMMENT
        } else if character == '\r' {
            TokenType::SPACE
        } else if character == '\n' {
            TokenType::LineBreak
        } else if character == '\t' {
            TokenType::SpaceLevel
        } else if character == ' ' {
            if self.matches_character(' ') {
                TokenType::SpaceLevel
            } else {
                TokenType::SPACE
            }
        } else if character == '"' {
            let kind = self.scan_string_token();
            proof {
                lemma_string_scan_bounds(src, (p + 1) as nat);
            }
            kind
        } else if is_digit_exec(character) {
            self.scan_number()
        } else if is_alpha_exec(character) {
            self.scan_identifier()
        } else {
            TokenType::INVALID
        };

        self.create_token(token_type)
    }

    /// One full scan: replaces the held source and file name, resets the
    /// cursors and the line counter, and emits the materialized token
    /// sequence, which always ends in exactly one `EOF` token. Unterminated
    /// string literals are reported to the sink; scanning continues after
    /// them.
    pub fn scan_string(&mut self, file_name: String, input: String) -> (tokens: Vec<Token>)
        requires
            input@.len() < usize::MAX,
        ensures
            tokens.deep_view() =~= scan_tokens(file_name@, input@),
            final(self).reporter.diagnostics.deep_view() =~= old(
                self,
            ).reporter.diagnostics.deep_view() + scan_diags(file_name@, input@),
            final(self).reporter.has_error == (old(self).reporter.has_error || scan_diags(
                file_name@,
                input@,
            ).len() > 0),
    {
        self.file_name = file_name;
        self.source = input;
        self.start = 0;
        self.current = 0;
        self.line = 1;

        let ghost src = self.source@;
        let ghost file = self.file_name@;
        let ghost diags0 = self.reporter.diagnostics.deep_view();
        let ghost had_error = self.reporter.has_error;

        let mut tokens: Vec<Token> = Vec::new();

        while !self.is_at_end()
            invariant
                src.len() < usize::MAX,
                self.source@ == src,
                self.file_name@ == file,
                self.start <= self.current <= src.len(),
                1 <= self.line,
                self.line <= self.current + 1,
                tokens.deep_view() + scan_tokens_from(
                    file,
                    src,
                    self.current as nat,
                    self.start as nat,
                    self.line as nat,
                ) =~= scan_tokens(file, src),
                self.reporter.diagnostics.deep_view() + scan_diags_from(
                    file,
                    src,
                    self.current as nat,
                    self.line as nat,
                ) =~= diags0 + scan_diags(file, src),
                self.reporter.diagnostics.deep_view().len() >= diags0.len(),
                self.reporter.has_error == (had_error || self.reporter.diagnostics.deep_view().len()
                    > diags0.len()),
            decreases src.len() - self.current,
        {
            proof {
                lemma_step_bounds(src, self.current as nat);
            }
            let ghost tokens_before = tokens.deep_view();
            let ghost diags_before = self.reporter.diagnostics.deep_view();

            self.start = self.current;
            let token = self.scan_token();

            match token.token_type {
                TokenType::COMMENT => {},
                TokenType::SPACE => {},
                TokenType::LineBreak => {
                    self.line = self.line + 1;
                    tokens.push(token);
                    proof {
                        assert(tokens.deep_view() =~= tokens_before.push(token@));
                    }
                },
                _ => {
                    tokens.push(token);
                    proof {
                        assert(tokens.deep_view() =~= tokens_before.push(token@));
                    }
                },
            }
        }

        let eof_token = self.create_token(TokenType::EOF);
        tokens.push(eof_token);
        proof {
            assert(tokens.deep_view() =~= scan_tokens(file, src));
        }
        tokens
    }
}

} // verus!
