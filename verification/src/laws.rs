//! Properties of the scanner, proved once and for all over its mathematical
//! model. Together with the contract of [`crate::scanner::Scanner::scan_string`],
//! which pins the emitted sequence to [`crate::scan_model::scan_tokens`], each
//! statement here carries over to every executable scan.

use vstd::prelude::*;
use crate::token::{TokenType, TokenModel};
use crate::reporter::DiagModel;
use crate::scan_model::{
    broken_string_msg, comment_end, scan_diags, scan_diags_from, scan_tokens, scan_tokens_from,
    step, step_token, string_scan, StrScan, lemma_step_bounds, lemma_string_scan_bounds,
};

verus! {

proof fn lemma_comment_end_no_newline(src: Seq<char>, pos: nat)
    requires
        pos <= src.len(),
        forall|i: int| pos <= i < src.len() ==> src[i] != '\n',
    ensures
        comment_end(src, pos) == src.len(),
    decreases src.len() - pos,
{
    if pos < src.len() {
        lemma_comment_end_no_newline(src, (pos + 1) as nat);
    }
}

/// A source text that is a single `#`-comment (no line feed anywhere) scans to
/// no content tokens at all: the comment is fully elided and only the single
/// trailing `EOF` token remains.
pub proof fn lemma_comment_only_scan(file: Seq<char>, src: Seq<char>)
    requires
        src.len() > 0,
        src[0] == '#',
        forall|i: int| 0 <= i < src.len() ==> src[i] != '\n',
    ensures
        scan_tokens(file, src).len() == 1,
        scan_tokens(file, src)[0].kind == TokenType::EOF,
        scan_diags(file, src) =~= Seq::<DiagModel>::empty(),
{
    lemma_comment_end_no_newline(src, 1);
    assert(step(src, 0).kind == TokenType::COMMENT);
    assert(step(src, 0).next == src.len());
    assert(scan_tokens(file, src) =~= scan_tokens_from(file, src, src.len() as nat, 0, 1));
    assert(scan_diags_from(file, src, src.len() as nat, 1) =~= Seq::<DiagModel>::empty());
    assert(scan_diags(file, src) =~= scan_diags_from(file, src, src.len() as nat, 1));
}

proof fn lemma_scan_from_single_eof(file: Seq<char>, src: Seq<char>, pos: nat, mark: nat, line: nat)
    ensures
        scan_tokens_from(file, src, pos, mark, line).len() >= 1,
        scan_tokens_from(file, src, pos, mark, line).last().kind == TokenType::EOF,
        forall|i: int|
            0 <= i < scan_tokens_from(file, src, pos, mark, line).len() - 1
                ==> scan_tokens_from(file, src, pos, mark, line)[i].kind != TokenType::EOF,
    decreases src.len() - pos,
{
    if pos < src.len() {
        lemma_step_bounds(src, pos);
        lemma_string_scan_bounds(src, (pos + 1) as nat);
        let st = step(src, pos);
        assert(st.kind != TokenType::EOF);
        if st.kind == TokenType::COMMENT || st.kind == TokenType::SPACE {
            lemma_scan_from_single_eof(file, src, st.next, pos, line);
        } else if st.kind == TokenType::LineBreak {
            lemma_scan_from_single_eof(file, src, st.next, pos, (line + 1) as nat);
        } else {
            lemma_scan_from_single_eof(file, src, st.next, pos, line);
        }
    }
}

/// Whatever the source text, the emitted sequence ends in an `EOF` token, and
/// that is the only `EOF` token in it.
pub proof fn lemma_scan_ends_in_single_eof(file: Seq<char>, src: Seq<char>)
    ensures
        scan_tokens(file, src).len() >= 1,
        scan_tokens(file, src).last().kind == TokenType::EOF,
        forall|i: int|
            0 <= i < scan_tokens(file, src).len() - 1 ==> scan_tokens(file, src)[i].kind
                != TokenType::EOF,
{
    lemma_scan_from_single_eof(file, src, 0, 0, 1);
}

proof fn lemma_string_scan_closes(src: Seq<char>, pos: nat)
    requires
        src.len() >= 1,
        1 <= pos <= src.len() - 1,
        src[src.len() - 1] == '"',
        forall|i: int| pos <= i < src.len() - 1 ==> src[i] != '"' && src[i] != '\n',
    ensures
        string_scan(src, pos) == (StrScan {
            kind: TokenType::STRING,
            end: src.len() as nat,
            diag: false,
        }),
    decreases src.len() - pos,
{
    if pos < src.len() - 1 {
        lemma_string_scan_closes(src, (pos + 1) as nat);
    }
}

/// A string literal's token carries exactly the source text between the
/// quotes, both quotes excluded: scanning `"` + `s` + `"` (for `s` free of
/// quotes and line feeds) emits a `STRING` token whose lexeme is `s`, then the
/// trailing `EOF`, and reports nothing.
pub proof fn lemma_string_literal_lexeme(file: Seq<char>, s: Seq<char>)
    requires
        forall|i: int| 0 <= i < s.len() ==> s[i] != '"' && s[i] != '\n',
    ensures
        scan_tokens(file, seq!['"'] + s + seq!['"']).len() == 2,
        scan_tokens(file, seq!['"'] + s + seq!['"'])[0].kind == TokenType::STRING,
        scan_tokens(file, seq!['"'] + s + seq!['"'])[0].lexeme =~= s,
        scan_diags(file, seq!['"'] + s + seq!['"']) =~= Seq::<DiagModel>::empty(),
{
    let src = seq!['"'] + s + seq!['"'];
    assert(src.len() == s.len() + 2);
    assert(src[0] == '"');
    assert(src[src.len() - 1] == '"');
    assert(forall|i: int| 1 <= i < src.len() - 1 ==> src[i] == s[i - 1]);
    lemma_string_scan_closes(src, 1);
    let st = step(src, 0);
    assert(st.kind == TokenType::STRING && st.next == src.len());
    assert(scan_tokens_from(file, src, src.len() as nat, 0, 1).len() == 1);
    assert(scan_tokens_from(file, src, src.len() as nat, 0, 1)[0].kind == TokenType::EOF);
    assert(scan_tokens(file, src) =~= seq![step_token(file, src, 0, 1)] + scan_tokens_from(
        file,
        src,
        src.len() as nat,
        0,
        1,
    ));
    assert(scan_tokens(file, src)[0].lexeme =~= s);
    assert(scan_diags_from(file, src, src.len() as nat, 1) =~= Seq::<DiagModel>::empty());
    assert(scan_diags(file, src) =~= scan_diags_from(file, src, src.len() as nat, 1));
}

proof fn lemma_string_scan_runs_off(src: Seq<char>, pos: nat)
    requires
        pos <= src.len(),
        forall|i: int| pos <= i < src.len() ==> src[i] != '"' && src[i] != '\n',
    ensures
        string_scan(src, pos) == (StrScan {
            kind: TokenType::INVALID,
            end: src.len() as nat,
            diag: true,
        }),
    decreases src.len() - pos,
{
    if pos < src.len() {
        lemma_string_scan_runs_off(src, (pos + 1) as nat);
    }
}

/// An unterminated string literal at the end of input — an opening quote never
/// matched, with no line feed after it — produces exactly one diagnostic, the
/// broken-string message on line 1, and the scan still completes with an
/// `INVALID` token followed by the trailing `EOF`.
pub proof fn lemma_unterminated_string_diagnostic(file: Seq<char>, s: Seq<char>)
    requires
        forall|i: int| 0 <= i < s.len() ==> s[i] != '"' && s[i] != '\n',
    ensures
        scan_diags(file, seq!['"'] + s) =~= seq![
            DiagModel { file, line: 1, message: broken_string_msg() },
        ],
        scan_tokens(file, seq!['"'] + s).len() == 2,
        scan_tokens(file, seq!['"'] + s)[0].kind == TokenType::INVALID,
        scan_tokens(file, seq!['"'] + s)[1].kind == TokenType::EOF,
{
    let src = seq!['"'] + s;
    assert(src[0] == '"');
    assert(forall|i: int| 1 <= i < src.len() ==> src[i] == s[i - 1]);
    lemma_string_scan_runs_off(src, 1);
    let st = step(src, 0);
    assert(st.kind == TokenType::INVALID && st.next == src.len() && st.diag);
    assert(scan_tokens_from(file, src, src.len() as nat, 0, 1).len() == 1);
    assert(scan_tokens_from(file, src, src.len() as nat, 0, 1)[0].kind == TokenType::EOF);
    assert(scan_tokens(file, src) =~= seq![step_token(file, src, 0, 1)] + scan_tokens_from(
        file,
        src,
        src.len() as nat,
        0,
        1,
    ));
    assert(scan_diags_from(file, src, src.len() as nat, 1) =~= Seq::<DiagModel>::empty());
    assert(scan_diags(file, src) =~= seq![
        DiagModel { file, line: 1, message: broken_string_msg() },
    ] + scan_diags_from(file, src, src.len() as nat, 1));
}

proof fn lemma_scan_from_lines_monotone(
    file: Seq<char>,
    src: Seq<char>,
    pos: nat,
    mark: nat,
    line: nat,
)
    ensures
        forall|i: int|
            0 <= i < scan_tokens_from(file, src, pos, mark, line).len() ==> scan_tokens_from(
                file,
                src,
                pos,
                mark,
                line,
            )[i].line >= line,
        forall|i: int, j: int|
            0 <= i <= j < scan_tokens_from(file, src, pos, mark, line).len()
                ==> scan_tokens_from(file, src, pos, mark, line)[i].line <= scan_tokens_from(
                file,
                src,
                pos,
                mark,
                line,
            )[j].line,
    decreases src.len() - pos,
{
    if pos < src.len() {
        lemma_step_bounds(src, pos);
        let st = step(src, pos);
        if st.kind == TokenType::LineBreak {
            lemma_scan_from_lines_monotone(file, src, st.next, pos, (line + 1) as nat);
        } else {
            lemma_scan_from_lines_monotone(file, src, st.next, pos, line);
        }
    }
}

/// Line numbers are monotonically non-decreasing across the emitted sequence.
pub proof fn lemma_scan_lines_monotone(file: Seq<char>, src: Seq<char>)
    ensures
        forall|i: int, j: int|
            0 <= i <= j < scan_tokens(file, src).len() ==> scan_tokens(file, src)[i].line
                <= scan_tokens(file, src)[j].line,
{
    lemma_scan_from_lines_monotone(file, src, 0, 0, 1);
}

proof fn lemma_scan_from_filters(file: Seq<char>, src: Seq<char>, pos: nat, mark: nat, line: nat)
    ensures
        forall|i: int|
            0 <= i < scan_tokens_from(file, src, pos, mark, line).len() ==> scan_tokens_from(
                file,
                src,
                pos,
                mark,
                line,
            )[i].kind != TokenType::COMMENT && scan_tokens_from(file, src, pos, mark, line)[i].kind
                != TokenType::SPACE,
    decreases src.len() - pos,
{
    if pos < src.len() {
        lemma_step_bounds(src, pos);
        let st = step(src, pos);
        if st.kind == TokenType::LineBreak {
            lemma_scan_from_filters(file, src, st.next, pos, (line + 1) as nat);
        } else {
            lemma_scan_from_filters(file, src, st.next, pos, line);
        }
    }
}

/// Comment and plain-space tokens are fully elided: none ever reaches the
/// emitted sequence, and so none ever reaches the parser.
pub proof fn lemma_scan_filters_insignificant(file: Seq<char>, src: Seq<char>)
    ensures
        forall|i: int|
            0 <= i < scan_tokens(file, src).len() ==> scan_tokens(file, src)[i].kind
                != TokenType::COMMENT && scan_tokens(file, src)[i].kind != TokenType::SPACE,
{
    lemma_scan_from_filters(file, src, 0, 0, 1);
}

/// Scanning is a pure function of the file name and the source text: two
/// scans of equal inputs — in particular, two scans of the same text with
/// fresh scanner and sink pairs — yield identical token sequences and
/// identical diagnostics.
pub proof fn lemma_scan_deterministic(
    file1: Seq<char>,
    src1: Seq<char>,
    file2: Seq<char>,
    src2: Seq<char>,
)
    requires
        file1 == file2,
        src1 == src2,
    ensures
        scan_tokens(file1, src1) == scan_tokens(file2, src2),
        scan_diags(file1, src1) == scan_diags(file2, src2),
{
}

} // verus!
