//! The mathematical model of the scanner: a pure, recursive description of the
//! token sequence and the diagnostics that scanning a source text produces.
//! The executable [`crate::scanner::Scanner`] is proved to emit exactly this
//! sequence.

use vstd::prelude::*;
use crate::token::{TokenType, TokenModel};
use crate::reporter::DiagModel;

verus! {

/// An ASCII decimal digit.
pub open spec fn is_digit_char(c: char) -> bool {
    '0' as int <= c as int && c as int <= '9' as int
}

/// An ASCII letter. The language's identifiers and keywords are ASCII.
pub open spec fn is_alpha_char(c: char) -> bool {
    ('a' as int <= c as int && c as int <= 'z' as int)
    || ('A' as int <= c as int && c as int <= 'Z' as int)
}

/// An ASCII letter or digit: what may continue an identifier.
pub open spec fn is_alnum_char(c: char) -> bool {
    is_alpha_char(c) || is_digit_char(c)
}

/// The message reported for a string literal with no closing quote on its line.
pub open spec fn broken_string_msg() -> Seq<char> {
    "Broken string"@
}

/// First position at or after `pos` holding a line feed, or the end of the
/// source: a `#`-comment runs through here (exclusive).
pub open spec fn comment_end(src: Seq<char>, pos: nat) -> nat
    decreases src.len() - pos,
{
    if pos < src.len() && src[pos as int] != '\n' {
        comment_end(src, (pos + 1) as nat)
    } else {
        pos
    }
}

/// Outcome of scanning the inside of a string literal, starting just after the
/// opening quote: the token kind (`STRING`, or `INVALID` when a line break or
/// the end of input arrives first), the cursor position after the scan, and
/// whether a diagnostic is reported.
pub ghost struct StrScan {
    pub kind: TokenType,
    pub end: nat,
    pub diag: bool,
}

pub open spec fn string_scan(src: Seq<char>, pos: nat) -> StrScan
    decreases src.len() - pos,
{
    if pos >= src.len() {
        StrScan { kind: TokenType::INVALID, end: pos, diag: true }
    } else if src[pos as int] == '"' {
        StrScan { kind: TokenType::STRING, end: (pos + 1) as nat, diag: false }
    } else if src[pos as int] == '\n' {
        StrScan { kind: TokenType::INVALID, end: pos, diag: true }
    } else {
        string_scan(src, (pos + 1) as nat)
    }
}

/// Outcome of scanning the tail of a numeric literal, starting just after its
/// first digit: the cursor position after the scan, and whether a decimal
/// point was consumed (upgrading the token from `INT` to `FLOAT`).
pub ghost struct NumScan {
    pub end: nat,
    pub is_float: bool,
}

pub open spec fn num_scan(src: Seq<char>, pos: nat) -> NumScan
    decreases src.len() - pos,
{
    if pos < src.len()
        && (is_digit_char(src[pos as int])
            || (src[pos as int] == '.' && pos + 1 < src.len() && is_digit_char(src[pos as int + 1]))) {
        let sub = num_scan(src, (pos + 1) as nat);
        NumScan { end: sub.end, is_float: sub.is_float || src[pos as int] == '.' }
    } else {
        NumScan { end: pos, is_float: false }
    }
}

/// First position at or after `pos` that does not hold an identifier
/// character, or the end of the source.
pub open spec fn ident_end(src: Seq<char>, pos: nat) -> nat
    decreases src.len() - pos,
{
    if pos < src.len() && is_alnum_char(src[pos as int]) {
        ident_end(src, (pos + 1) as nat)
    } else {
        pos
    }
}

/// The keyword table: identifier text that names a keyword gets the keyword's
/// kind; anything else is a plain identifier.
pub open spec fn keyword_kind(s: Seq<char>) -> TokenType {
    if s == "const"@ {
        TokenType::CONST
    } else if s == "fun"@ {
        TokenType::FUNCTION
    } else if s == "print"@ {
        TokenType::PRINT
    } else if s == "if"@ {
        TokenType::IF
    } else if s == "else"@ {
        TokenType::ELSE
    } else if s == "while"@ {
        TokenType::WHILE
    } else if s == "true"@ {
        TokenType::TRUE
    } else if s == "false"@ {
        TokenType::FALSE
    } else {
        TokenType::IDENTIFIER
    }
}

/// One scanning step: the kind of the token found at `pos`, the cursor
/// position after it, and whether a diagnostic is reported during the step.
pub ghost struct ScanStep {
    pub kind: TokenType,
    pub next: nat,
    pub diag: bool,
}

/// Dispatch on the leading character at `pos` (meaningful for `pos` within the
/// source). `!` and `=` peek one character ahead; a run of two spaces
/// collapses to one indentation marker, as does a tab; `#` consumes a comment
/// through (not including) the next line feed; `"` opens a string literal; a
/// digit opens a number; a letter opens an identifier or keyword; any other
/// character yields a silent `INVALID` token.
pub open spec fn step(src: Seq<char>, pos: nat) -> ScanStep {
    if pos >= src.len() {
        ScanStep { kind: TokenType::EOF, next: pos, diag: false }
    } else {
        let c = src[pos as int];
        if c == '(' {
            ScanStep { kind: TokenType::LeftParen, next: (pos + 1) as nat, diag: false }
        } else if c == ')' {
            ScanStep { kind: TokenType::RightParen, next: (pos + 1) as nat, diag: false }
        } else if c == ',' {
            ScanStep { kind: TokenType::COMMA, next: (pos + 1) as nat, diag: false }
        } else if c == '.' {
            ScanStep { kind: TokenType::DOT, next: (pos + 1) as nat, diag: false }
        } else if c == '+' {
            ScanStep { kind: TokenType::PLUS, next: (pos + 1) as nat, diag: false }
        } else if c == '-' {
            ScanStep { kind: TokenType::MINUS, next: (pos + 1) as nat, diag: false }
        } else if c == '!' {
            if pos + 1 < src.len() && src[pos as int + 1] == '=' {
                ScanStep { kind: TokenType::BangEqual, next: (pos + 2) as nat, diag: false }
            } else {
                ScanStep { kind: TokenType::BANG, next: (pos + 1) as nat, diag: false }
            }
        } else if c == '=' {
            if pos + 1 < src.len() && src[pos as int + 1] == '=' {
                ScanStep { kind: TokenType::EqualEqual, next: (pos + 2) as nat, diag: false }
            } else {
                ScanStep { kind: TokenType::EQUAL, next: (pos + 1) as nat, diag: false }
            }
        } else if c == '#' {
            ScanStep { kind: TokenType::COMMENT, next: comment_end(src, (pos + 1) as nat), diag: false }
        } else if c == '\r' {
            ScanStep { kind: TokenType::SPACE, next: (pos + 1) as nat, diag: false }
        } else if c == '\n' {
            ScanStep { kind: TokenType::LineBreak, next: (pos + 1) as nat, diag: false }
        } else if c == '\t' {
            ScanStep { kind: TokenType::SpaceLevel, next: (pos + 1) as nat, diag: false }
        } else if c == ' ' {
            if pos + 1 < src.len() && src[pos as int + 1] == ' ' {
                ScanStep { kind: TokenType::SpaceLevel, next: (pos + 2) as nat, diag: false }
            } else {
                ScanStep { kind: TokenType::SPACE, next: (pos + 1) as nat, diag: false }
            }
        } else if c == '"' {
            let s = string_scan(src, (pos + 1) as nat);
            ScanStep { kind: s.kind, next: s.end, diag: s.diag }
        } else if is_digit_char(c) {
            let n = num_scan(src, (pos + 1) as nat);
            ScanStep {
                kind: if n.is_float { TokenType::FLOAT } else { TokenType::INT },
                next: n.end,
                diag: false,
            }
        } else if is_alpha_char(c) {
            let e = ident_end(src, (pos + 1) as nat);
            ScanStep { kind: keyword_kind(src.subrange(pos as int, e as int)), next: e, diag: false }
        } else {
            ScanStep { kind: TokenType::INVALID, next: (pos + 1) as nat, diag: false }
        }
    }
}

/// The lexeme of the token whose span is `[pos, next)`: the exact source
/// substring, except that a `STRING` token drops the quote on each side.
pub open spec fn step_lexeme(src: Seq<char>, pos: nat, st: ScanStep) -> Seq<char> {
    if st.kind == TokenType::STRING {
        src.subrange(pos as int + 1, st.next as int - 1)
    } else {
        src.subrange(pos as int, st.next as int)
    }
}

/// The token produced by the step at `pos`, carrying the current line.
pub open spec fn step_token(file: Seq<char>, src: Seq<char>, pos: nat, line: nat) -> TokenModel {
    let st = step(src, pos);
    TokenModel { kind: st.kind, lexeme: step_lexeme(src, pos, st), file, line }
}

pub proof fn lemma_comment_end_bounds(src: Seq<char>, pos: nat)
    ensures
        pos <= comment_end(src, pos) <= src.len() || (pos > src.len() && comment_end(src, pos) == pos),
    decreases src.len() - pos,
{
    if pos < src.len() && src[pos as int] != '\n' {
        lemma_comment_end_bounds(src, (pos + 1) as nat);
    }
}

pub proof fn lemma_string_scan_bounds(src: Seq<char>, pos: nat)
    requires
        pos <= src.len(),
    ensures
        pos <= string_scan(src, pos).end <= src.len(),
        string_scan(src, pos).kind == TokenType::STRING ==> string_scan(src, pos).end > pos,
        string_scan(src, pos).kind == TokenType::STRING || string_scan(src, pos).kind
            == TokenType::INVALID,
        string_scan(src, pos).diag == (string_scan(src, pos).kind == TokenType::INVALID),
    decreases src.len() - pos,
{
    if pos < src.len() && src[pos as int] != '"' && src[pos as int] != '\n' {
        lemma_string_scan_bounds(src, (pos + 1) as nat);
    }
}

pub proof fn lemma_num_scan_bounds(src: Seq<char>, pos: nat)
    requires
        pos <= src.len(),
    ensures
        pos <= num_scan(src, pos).end <= src.len(),
    decreases src.len() - pos,
{
    if pos < src.len()
        && (is_digit_char(src[pos as int])
            || (src[pos as int] == '.' && pos + 1 < src.len() && is_digit_char(src[pos as int + 1]))) {
        lemma_num_scan_bounds(src, (pos + 1) as nat);
    }
}

pub proof fn lemma_ident_end_bounds(src: Seq<char>, pos: nat)
    requires
        pos <= src.len(),
    ensures
        pos <= ident_end(src, pos) <= src.len(),
    decreases src.len() - pos,
{
    if pos < src.len() && is_alnum_char(src[pos as int]) {
        lemma_ident_end_bounds(src, (pos + 1) as nat);
    }
}

/// Every step on a position inside the source consumes at least one character
/// and stays within it.
pub proof fn lemma_step_bounds(src: Seq<char>, pos: nat)
    requires
        pos < src.len(),
    ensures
        pos < step(src, pos).next <= src.len(),
{
    lemma_comment_end_bounds(src, (pos + 1) as nat);
    lemma_string_scan_bounds(src, (pos + 1) as nat);
    lemma_num_scan_bounds(src, (pos + 1) as nat);
    lemma_ident_end_bounds(src, (pos + 1) as nat);
}

/// The token sequence emitted from cursor position `pos` on, with `mark` the
/// start of the most recently scanned span and `line` the current 1-based
/// line. `COMMENT` and plain-space tokens are filtered out; a `LineBreak`
/// token is emitted carrying the line it terminates, and the counter then
/// advances. When the cursor reaches the end, a single `EOF` token closes the
/// sequence; its span is the most recently scanned one, as the cursor pair is
/// simply left where the last token put it.
pub open spec fn scan_tokens_from(
    file: Seq<char>,
    src: Seq<char>,
    pos: nat,
    mark: nat,
    line: nat,
) -> Seq<TokenModel>
    decreases src.len() - pos,
    via scan_tokens_from_decreases
{
    if pos >= src.len() {
        seq![
            TokenModel {
                kind: TokenType::EOF,
                lexeme: src.subrange(mark as int, src.len() as int),
                file,
                line,
            },
        ]
    } else {
        let st = step(src, pos);
        let tok = step_token(file, src, pos, line);
        if st.kind == TokenType::COMMENT || st.kind == TokenType::SPACE {
            scan_tokens_from(file, src, st.next, pos, line)
        } else if st.kind == TokenType::LineBreak {
            seq![tok] + scan_tokens_from(file, src, st.next, pos, (line + 1) as nat)
        } else {
            seq![tok] + scan_tokens_from(file, src, st.next, pos, line)
        }
    }
}

#[via_fn]
proof fn scan_tokens_from_decreases(
    file: Seq<char>,
    src: Seq<char>,
    pos: nat,
    mark: nat,
    line: nat,
) {
    if pos < src.len() {
        lemma_step_bounds(src, pos);
    }
}

/// The diagnostics reported from cursor position `pos` on, in order.
pub open spec fn scan_diags_from(file: Seq<char>, src: Seq<char>, pos: nat, line: nat) -> Seq<
    DiagModel,
>
    decreases src.len() - pos,
    via scan_diags_from_decreases
{
    if pos >= src.len() {
        Seq::empty()
    } else {
        let st = step(src, pos);
        let rest = scan_diags_from(
            file,
            src,
            st.next,
            if st.kind == TokenType::LineBreak {
                (line + 1) as nat
            } else {
                line
            },
        );
        if st.diag {
            seq![DiagModel { file, line, message: broken_string_msg() }] + rest
        } else {
            rest
        }
    }
}

#[via_fn]
proof fn scan_diags_from_decreases(file: Seq<char>, src: Seq<char>, pos: nat, line: nat) {
    if pos < src.len() {
        lemma_step_bounds(src, pos);
    }
}

/// The full token sequence of a scan of `src`, attributed to `file`.
pub open spec fn scan_tokens(file: Seq<char>, src: Seq<char>) -> Seq<TokenModel> {
    scan_tokens_from(file, src, 0, 0, 1)
}

/// The full diagnostic sequence of a scan of `src`, attributed to `file`.
pub open spec fn scan_diags(file: Seq<char>, src: Seq<char>) -> Seq<DiagModel> {
    scan_diags_from(file, src, 0, 1)
}

} // verus!
