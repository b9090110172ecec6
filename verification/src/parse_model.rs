//! The mathematical model of the parser: a pure, recursive description of the
//! expression list and the diagnostics that one left-to-right walk over a
//! token sequence produces. The executable [`crate::parser::Parser`] is proved
//! to build exactly this.
//!
//! The cursor model mirrors the executable one: reading at or past the end of
//! the sequence hands back the final token without moving, so every function
//! here is total over arbitrary token sequences.

use vstd::prelude::*;
use crate::token::{TokenType, TokenModel};
use crate::expressions::ExprModel;
use crate::reporter::DiagModel;
use crate::scan_model::is_digit_char;

verus! {

pub open spec fn msg_could_not_parse() -> Seq<char> {
    "Could not parse an expression"@
}

pub open spec fn msg_missing_identifier() -> Seq<char> {
    "Missing identifier after function keyword"@
}

pub open spec fn msg_missing_left_paren() -> Seq<char> {
    "Missing left paren after function name"@
}

pub open spec fn msg_missing_right_paren() -> Seq<char> {
    "Missing right paren after after all params"@
}

pub open spec fn msg_missing_equal() -> Seq<char> {
    "Missing equal after identifier"@
}

pub open spec fn msg_comma_missing() -> Seq<char> {
    "Comma missing after parameter"@
}

pub open spec fn msg_body_missing() -> Seq<char> {
    "Function body is missing"@
}

pub open spec fn msg_invalid_int() -> Seq<char> {
    "Invalid integer literal"@
}

/// The token under the cursor; at or past the end, the final token.
pub open spec fn tok_at(toks: Seq<TokenModel>, pos: nat) -> TokenModel {
    if pos < toks.len() {
        toks[pos as int]
    } else if toks.len() > 0 {
        toks[toks.len() - 1]
    } else {
        TokenModel { kind: TokenType::EOF, lexeme: Seq::empty(), file: Seq::empty(), line: 0 }
    }
}

/// The cursor after one advance: one step forward inside the sequence,
/// unmoved at or past its end.
pub open spec fn adv(toks: Seq<TokenModel>, pos: nat) -> nat {
    if pos < toks.len() {
        (pos + 1) as nat
    } else {
        pos
    }
}

/// The cursor after consuming `k` tokens.
pub open spec fn skip(toks: Seq<TokenModel>, pos: nat, k: nat) -> nat {
    if pos + k <= toks.len() {
        (pos + k) as nat
    } else if pos <= toks.len() {
        toks.len()
    } else {
        pos
    }
}

/// The walk is over: the cursor has left the sequence or sits on `EOF`.
pub open spec fn at_end(toks: Seq<TokenModel>, pos: nat) -> bool {
    pos >= toks.len() || tok_at(toks, pos).kind == TokenType::EOF
}

/// `n` confined to `[lo, toks.len()]`. The executable parser always returns a
/// cursor in this range; the model clamps so that its own recursion is
/// manifestly well-founded.
pub open spec fn clamp(toks: Seq<TokenModel>, lo: nat, n: nat) -> nat {
    if n < lo {
        lo
    } else if n > toks.len() {
        toks.len()
    } else {
        n
    }
}

/// Tokens still ahead of the cursor.
pub open spec fn rem(toks: Seq<TokenModel>, pos: nat) -> int {
    if pos <= toks.len() {
        toks.len() - pos
    } else {
        0
    }
}

/// First position at or after `pos` that does not hold an indentation marker,
/// or the end of the sequence.
pub open spec fn marker_run_end(toks: Seq<TokenModel>, pos: nat) -> nat
    decreases toks.len() - pos,
{
    if pos < toks.len() && toks[pos as int].kind == TokenType::SpaceLevel {
        marker_run_end(toks, (pos + 1) as nat)
    } else {
        pos
    }
}

pub proof fn lemma_marker_run_end_bounds(toks: Seq<TokenModel>, pos: nat)
    requires
        pos <= toks.len(),
    ensures
        pos <= marker_run_end(toks, pos) <= toks.len(),
    decreases toks.len() - pos,
{
    if pos < toks.len() && toks[pos as int].kind == TokenType::SpaceLevel {
        lemma_marker_run_end_bounds(toks, (pos + 1) as nat);
    }
}

/// Every character is a decimal digit.
pub open spec fn all_digits(s: Seq<char>) -> bool {
    forall|i: int| 0 <= i < s.len() ==> is_digit_char(s[i])
}

/// The value of a decimal digit string, most significant digit first.
pub open spec fn digits_val(s: Seq<char>) -> int
    decreases s.len(),
{
    if s.len() == 0 {
        0
    } else {
        digits_val(s.drop_last()) * 10 + (s.last() as int - '0' as int)
    }
}

/// An `INT` lexeme the parser accepts: nonempty, all digits, in range for a
/// 64-bit signed value.
pub open spec fn int_literal_ok(s: Seq<char>) -> bool {
    s.len() > 0 && all_digits(s) && digits_val(s) <= i64::MAX
}

/// The outcome of one sub-parse: the node built or the error message, and the
/// cursor afterwards.
pub ghost struct ParseOut {
    pub res: Result<ExprModel, Seq<char>>,
    pub next: nat,
}

/// The outcome of collecting a function body: the children gathered and the
/// cursor afterwards.
pub ghost struct FnBody {
    pub body: Seq<ExprModel>,
    pub next: nat,
}

/// The outcome of the whole walk: the top-level nodes and the diagnostics, in
/// order.
pub ghost struct AstOut {
    pub exprs: Seq<ExprModel>,
    pub diags: Seq<DiagModel>,
}

/// Dispatch on the kind of the token already consumed (`t`), the cursor
/// standing just after it. Literals and identifiers build a node from the
/// token alone; keywords hand over to their construct's rule; anything else
/// is an unrecognized construct.
pub open spec fn spec_parse_expr(toks: Seq<TokenModel>, pos: nat, t: TokenModel) -> ParseOut
    decreases rem(toks, pos), 3int,
{
    if t.kind == TokenType::FUNCTION {
        spec_parse_function(toks, pos)
    } else if t.kind == TokenType::CONST {
        spec_parse_const(toks, pos)
    } else if t.kind == TokenType::PRINT {
        spec_parse_print(toks, pos)
    } else if t.kind == TokenType::STRING {
        ParseOut { res: Ok(ExprModel::Str { value: t.lexeme }), next: pos }
    } else if t.kind == TokenType::INT {
        if int_literal_ok(t.lexeme) {
            ParseOut { res: Ok(ExprModel::Int { value: digits_val(t.lexeme) }), next: pos }
        } else {
            ParseOut { res: Err(msg_invalid_int()), next: pos }
        }
    } else if t.kind == TokenType::IDENTIFIER {
        ParseOut { res: Ok(ExprModel::Variable { name: t.lexeme }), next: pos }
    } else {
        ParseOut { res: Err(msg_could_not_parse()), next: pos }
    }
}

/// `const NAME = value`: an identifier, an equals sign, then a value
/// expression; the missing-token failures each carry their fixed message, and
/// a failing value expression propagates its own.
pub open spec fn spec_parse_const(toks: Seq<TokenModel>, pos: nat) -> ParseOut
    decreases rem(toks, pos), 2int,
{
    let id = tok_at(toks, pos);
    let p1 = adv(toks, pos);
    if id.kind != TokenType::IDENTIFIER {
        ParseOut { res: Err(msg_missing_identifier()), next: p1 }
    } else {
        let eq = tok_at(toks, p1);
        let p2 = adv(toks, p1);
        if eq.kind != TokenType::EQUAL {
            ParseOut { res: Err(msg_missing_equal()), next: p2 }
        } else {
            let t = tok_at(toks, p2);
            let p3 = adv(toks, p2);
            let r = spec_parse_expr(toks, p3, t);
            match r.res {
                Ok(v) => ParseOut {
                    res: Ok(ExprModel::Const { name: id.lexeme, value: Box::new(v) }),
                    next: r.next,
                },
                Err(m) => ParseOut { res: Err(m), next: r.next },
            }
        }
    }
}

/// `print(...)`: a left parenthesis, then the argument loop. An exhausted
/// sequence right after the parenthesis closes the call with no arguments.
pub open spec fn spec_parse_print(toks: Seq<TokenModel>, pos: nat) -> ParseOut
    decreases rem(toks, pos), 2int,
{
    let lp = tok_at(toks, pos);
    let p1 = adv(toks, pos);
    if lp.kind != TokenType::LeftParen {
        ParseOut { res: Err(msg_missing_left_paren()), next: p1 }
    } else if pos >= toks.len() {
        ParseOut { res: Ok(ExprModel::Print { values: Seq::empty() }), next: adv(toks, p1) }
    } else {
        let cur = tok_at(toks, p1);
        let p2 = adv(toks, p1);
        spec_print_loop(toks, p2, cur, Seq::empty())
    }
}

/// The argument loop of `print`: parse one expression, then expect a comma
/// (continue) or the closing parenthesis (stop); anything else is the
/// missing-comma failure. A failing argument ends the call with what was
/// gathered; the empty call is legal.
pub open spec fn spec_print_loop(
    toks: Seq<TokenModel>,
    pos: nat,
    cur: TokenModel,
    acc: Seq<ExprModel>,
) -> ParseOut
    decreases rem(toks, pos), 4int,
{
    if cur.kind == TokenType::RightParen || at_end(toks, pos) {
        ParseOut { res: Ok(ExprModel::Print { values: acc }), next: pos }
    } else {
        let r = spec_parse_expr(toks, pos, cur);
        match r.res {
            Err(_) => ParseOut { res: Ok(ExprModel::Print { values: acc }), next: r.next },
            Ok(v) => {
                let acc2 = acc.push(v);
                let n = clamp(toks, pos, r.next);
                let c2 = tok_at(toks, n);
                let p2 = adv(toks, n);
                if c2.kind != TokenType::COMMA && c2.kind != TokenType::RightParen {
                    ParseOut { res: Err(msg_comma_missing()), next: p2 }
                } else if c2.kind == TokenType::COMMA {
                    let c3 = tok_at(toks, p2);
                    let p3 = adv(toks, p2);
                    spec_print_loop(toks, p3, c3, acc2)
                } else {
                    ParseOut { res: Ok(ExprModel::Print { values: acc2 }), next: p2 }
                }
            },
        }
    }
}

/// `fun NAME()`, a line break, then an indented body. The run of indentation
/// markers opening the first body line fixes the body's level; each further
/// body line blindly consumes exactly that many tokens before its expression,
/// and the body ends at the first failing expression or at the end of input.
pub open spec fn spec_parse_function(toks: Seq<TokenModel>, pos: nat) -> ParseOut
    decreases rem(toks, pos), 2int,
    via spec_parse_function_decreases
{
    let id = tok_at(toks, pos);
    let p1 = adv(toks, pos);
    if id.kind != TokenType::IDENTIFIER {
        ParseOut { res: Err(msg_missing_identifier()), next: p1 }
    } else {
        let lp = tok_at(toks, p1);
        let p2 = adv(toks, p1);
        if lp.kind != TokenType::LeftParen {
            ParseOut { res: Err(msg_missing_left_paren()), next: p2 }
        } else {
            let rp = tok_at(toks, p2);
            let p3 = adv(toks, p2);
            if rp.kind != TokenType::RightParen {
                ParseOut { res: Err(msg_missing_right_paren()), next: p3 }
            } else {
                let p4 = adv(toks, p3);  // the line break, discarded
                let lvl = tok_at(toks, p4);
                let p5 = adv(toks, p4);
                if lvl.kind != TokenType::SpaceLevel {
                    ParseOut { res: Err(msg_body_missing()), next: p5 }
                } else {
                    let q = marker_run_end(toks, p5);
                    let level = (1 + q - p5) as nat;
                    let t = tok_at(toks, q);
                    let p6 = adv(toks, q);
                    let r = spec_parse_expr(toks, p6, t);
                    match r.res {
                        Err(_) => ParseOut {
                            res: Ok(ExprModel::Function {
                                name: id.lexeme,
                                return_type: Box::new(ExprModel::Empty),
                                body: Seq::empty(),
                            }),
                            next: r.next,
                        },
                        Ok(v) => {
                            let n = clamp(toks, p6, r.next);
                            let p7 = adv(toks, n);  // the line break after the body line
                            let b = spec_fn_body_loop(toks, p7, level, seq![v]);
                            ParseOut {
                                res: Ok(ExprModel::Function {
                                    name: id.lexeme,
                                    return_type: Box::new(ExprModel::Empty),
                                    body: b.body,
                                }),
                                next: b.next,
                            }
                        },
                    }
                }
            }
        }
    }
}

#[via_fn]
proof fn spec_parse_function_decreases(toks: Seq<TokenModel>, pos: nat) {
    if pos < toks.len() {
        lemma_marker_run_end_bounds(toks, skip(toks, pos, 5));
        let p5 = adv(toks, adv(toks, adv(toks, adv(toks, adv(toks, pos)))));
        lemma_marker_run_end_bounds(toks, p5);
    }
}

/// One body line per round: consume the body's level in indentation tokens,
/// parse the line's expression, consume its trailing line break. A failing
/// expression signals the dedent and ends the body.
pub open spec fn spec_fn_body_loop(
    toks: Seq<TokenModel>,
    pos: nat,
    level: nat,
    acc: Seq<ExprModel>,
) -> FnBody
    decreases rem(toks, pos), 4int,
{
    if at_end(toks, pos) {
        FnBody { body: acc, next: pos }
    } else {
        let p1 = skip(toks, pos, level);
        let t = tok_at(toks, p1);
        let p2 = adv(toks, p1);
        let r = spec_parse_expr(toks, p2, t);
        match r.res {
            Err(_) => FnBody { body: acc, next: clamp(toks, p2, r.next) },
            Ok(v) => {
                let n = clamp(toks, p2, r.next);
                let p3 = adv(toks, n);  // the line break after the body line
                spec_fn_body_loop(toks, p3, level, acc.push(v))
            },
        }
    }
}

/// The top-level walk: while tokens remain, consume one and dispatch on it. A
/// top-level line break is skipped without a node or a diagnostic; a failing
/// construct becomes one diagnostic carrying the triggering token's file and
/// line, and the walk continues — exactly the one offending token is dropped.
pub open spec fn spec_parse_loop(
    toks: Seq<TokenModel>,
    pos: nat,
    exprs: Seq<ExprModel>,
    diags: Seq<DiagModel>,
) -> AstOut
    decreases rem(toks, pos), 5int,
{
    if at_end(toks, pos) {
        AstOut { exprs, diags }
    } else {
        let t = tok_at(toks, pos);
        let p1 = adv(toks, pos);
        let r = spec_parse_expr(toks, p1, t);
        let n = clamp(toks, p1, r.next);
        if t.kind == TokenType::LineBreak {
            spec_parse_loop(toks, n, exprs, diags)
        } else {
            match r.res {
                Ok(v) => spec_parse_loop(toks, n, exprs.push(v), diags),
                Err(m) => spec_parse_loop(
                    toks,
                    n,
                    exprs,
                    diags.push(DiagModel { file: t.file, line: t.line, message: m }),
                ),
            }
        }
    }
}

/// The program and the diagnostics that parsing a token sequence produces.
pub open spec fn spec_parse_ast(toks: Seq<TokenModel>) -> AstOut {
    spec_parse_loop(toks, 0, Seq::empty(), Seq::empty())
}

} // verus!
