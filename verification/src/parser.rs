//! The parser: one left-to-right walk over the token sequence with one token
//! of lookahead, building the list of top-level expression trees that
//! [`crate::parse_model`] describes. Malformed constructs become diagnostics
//! in the owned sink, never a hard stop.

use vstd::prelude::*;
use vstd::string::StrSliceExecFns;
use vstd::string::StringExecFns;
use crate::expressions::{
    ConstExpr, EmptyExpr, Expr, ExprModel, FunctionExpr, IntExpr, PrintExpr, StringExpr,
    VariableExpr, dump_model, lemma_models_of, lemma_models_of_push, models_of,
};
use crate::parse_model::{
    FnBody, adv, all_digits, at_end, clamp, digits_val, int_literal_ok,
    marker_run_end, msg_invalid_int, rem, skip, spec_fn_body_loop, spec_parse_ast,
    spec_parse_const, spec_parse_expr, spec_parse_function, spec_parse_loop, spec_parse_print,
    spec_print_loop, tok_at,
};
use crate::reporter::{CodeReporter, DiagModel};
use crate::token::{Token, TokenModel, TokenType};

verus! {

/// The parser's sole output artifact: the ordered top-level expression trees.
pub struct Ast {
    pub expressions: Vec<Expr>,
}

/// The rendering of a program: one `Expr: `-prefixed line per top-level tree,
/// from `i` on.
pub open spec fn ast_dump_model(ms: Seq<ExprModel>, i: int) -> Seq<char>
    decreases ms.len() - i,
{
    if 0 <= i < ms.len() {
        "Expr: "@ + dump_model(ms[i]) + "\n"@ + ast_dump_model(ms, i + 1)
    } else {
        Seq::empty()
    }
}

impl Ast {
    /// Renders every top-level tree on a line of its own.
    pub fn dump(&self) -> (r: String)
        ensures
            r@ == ast_dump_model(models_of(self.expressions@), 0),
    {
        let ghost ms = models_of(self.expressions@);
        proof {
            lemma_models_of(self.expressions@);
        }
        let mut out = String::new();
        let mut i: usize = 0;
        while i < self.expressions.len()
            invariant
                i <= self.expressions.len(),
                ms == models_of(self.expressions@),
                ms.len() == self.expressions@.len(),
                forall|j: int| 0 <= j < ms.len() ==> ms[j] == self.expressions@[j].model(),
                out@ + ast_dump_model(ms, i as int) =~= ast_dump_model(ms, 0),
            decreases self.expressions.len() - i,
        {
            let ghost before = out@;
            out.append("Expr: ");
            let line = self.expressions[i].render();
            out.append(line.as_str());
            out.append("\n");
            proof {
                assert(out@ =~= before + ("Expr: "@ + dump_model(ms[i as int]) + "\n"@));
                assert(before + ("Expr: "@ + dump_model(ms[i as int]) + "\n"@) + ast_dump_model(
                    ms,
                    i as int + 1,
                ) =~= before + ast_dump_model(ms, i as int));
            }
            i = i + 1;
        }
        out
    }
}

/// Relates an executable sub-parse result to its model: same success or
/// failure, same node or same message.
pub open spec fn result_matches(r: Result<Expr, &'static str>, res: Result<ExprModel, Seq<char>>) -> bool {
    match (r, res) {
        (Ok(e), Ok(m)) => e.model() == m,
        (Err(s), Err(m)) => s@ == m,
        _ => false,
    }
}

/// Token-stream to AST. The cursor only moves forward; the indentation level
/// is tracked while a function body is open, though no rule consults it
/// beyond the per-line token count.
pub struct Parser {
    pub tokens: Vec<Token>,
    pub current_token_index: usize,
    pub current_level: Ghost<int>,
    pub reporter: CodeReporter,
}

impl Parser {
    /// The cursor sits within the token sequence (one past its end at most).
    pub open spec fn wf(self) -> bool {
        self.current_token_index <= self.tokens.len()
    }

    /// The model of the held token sequence.
    pub open spec fn toks(self) -> Seq<TokenModel> {
        self.tokens.deep_view()
    }

    /// The cursor as a model position.
    pub open spec fn pos(self) -> nat {
        self.current_token_index as nat
    }

    pub fn new(tokens: Vec<Token>) -> (p: Self)
        ensures
            p.tokens == tokens,
            p.current_token_index == 0,
            !p.reporter.has_error,
            p.reporter.diagnostics@ =~= Seq::<crate::reporter::Diagnostic>::empty(),
            p.wf(),
    {
        Parser {
            tokens,
            current_token_index: 0,
            current_level: Ghost(0),
            reporter: CodeReporter::new(),
        }
    }

    /// The diagnostics sink, for inspection after a parse.
    pub fn reporter(&self) -> (r: &CodeReporter)
        ensures
            r == self.reporter,
    {
        &self.reporter
    }

    fn is_at_end(&self) -> (b: bool)
        requires
            self.wf(),
        ensures
            b == at_end(self.toks(), self.pos()),
    {
        if self.current_token_index >= self.tokens.len() {
            return true;
        }
        let token = &self.tokens[self.current_token_index];
        token.token_type == TokenType::EOF
    }

    fn advance(&mut self) -> (t: Token)
        requires
            old(self).wf(),
            old(self).tokens.len() > 0,
        ensures
            t@ == tok_at(old(self).toks(), old(self).pos()),
            final(self).pos() == adv(old(self).toks(), old(self).pos()),
            final(self).tokens == old(self).tokens,
            final(self).reporter == old(self).reporter,
            final(self).current_level == old(self).current_level,
            final(self).wf(),
    {
        if self.current_token_index < self.tokens.len() {
            let token = &self.tokens[self.current_token_index];
            let copy = Token::new(
                token.token_type,
                token.lexeme.clone(),
                token.file_name.clone(),
                token.line,
            );
            self.current_token_index = self.current_token_index + 1;
            copy
        } else {
            let token = &self.tokens[self.tokens.len() - 1];
            Token::new(token.token_type, token.lexeme.clone(), token.file_name.clone(), token.line)
        }
    }

    fn peek(&self) -> (t: Token)
        requires
            self.wf(),
            self.tokens.len() > 0,
        ensures
            t@ == tok_at(self.toks(), self.pos()),
    {
        if self.current_token_index < self.tokens.len() {
            let token = &self.tokens[self.current_token_index];
            Token::new(token.token_type, token.lexeme.clone(), token.file_name.clone(), token.line)
        } else {
            let token = &self.tokens[self.tokens.len() - 1];
            Token::new(token.token_type, token.lexeme.clone(), token.file_name.clone(), token.line)
        }
    }

    fn parse_string(&mut self, token: &Token) -> (r: Result<Expr, &'static str>)
        ensures
            *final(self) == *old(self),
            (r matches Ok(e) && e.model() == (ExprModel::Str { value: token@.lexeme })),
    {
        Ok(Expr::Str(StringExpr { value: token.lexeme.clone() }))
    }

    fn parse_variable(&mut self, token: &Token) -> (r: Result<Expr, &'static str>)
        ensures
            *final(self) == *old(self),
            (r matches Ok(e) && e.model() == (ExprModel::Variable { name: token@.lexeme })),
    {
        Ok(Expr::Variable(VariableExpr { name: token.lexeme.clone() }))
    }

    fn parse_int(&mut self, token: &Token) -> (r: Result<Expr, &'static str>)
        ensures
            *final(self) == *old(self),
            match r {
                Ok(e) => int_literal_ok(token@.lexeme) && e.model() == (ExprModel::Int {
                    value: digits_val(token@.lexeme),
                }),
                Err(m) => !int_literal_ok(token@.lexeme) && m@ == msg_invalid_int(),
            },
    {
        let ghost s = token@.lexeme;
        let n = token.lexeme.as_str().unicode_len();
        if n == 0 {
            return Err("Invalid integer literal");
        }
        let mut value: i64 = 0;
        let mut i: usize = 0;
        while i < n
            invariant
                s == token@.lexeme,
                n == s.len(),
                i <= n,
                all_digits(s.subrange(0, i as int)),
                0 <= value,
                value as int == digits_val(s.subrange(0, i as int)),
            decreases n - i,
        {
            let c = token.lexeme.as_str().get_char(i);
            let cu = c as u32;
            if cu < 48 || cu > 57 {
                proof {
                    assert(!crate::scan_model::is_digit_char(s[i as int]));
                    assert(!all_digits(s));
                }
                return Err("Invalid integer literal");
            }
            let d = (cu - 48) as i64;
            proof {
                assert(s.subrange(0, i as int + 1).drop_last() =~= s.subrange(0, i as int));
                assert(s.subrange(0, i as int + 1).last() == s[i as int]);
            }
            if value > (9223372036854775807i64 - d) / 10 {
                proof {
                    assert(digits_val(s.subrange(0, i as int + 1)) > i64::MAX);
                    if all_digits(s) {
                        lemma_digits_val_mono(s, i as int + 1, n as int);
                        assert(s.subrange(0, n as int) =~= s);
                    }
                }
                return Err("Invalid integer literal");
            }
            value = value * 10 + d;
            i = i + 1;
        }
        proof {
            assert(s.subrange(0, n as int) =~= s);
        }
        Ok(Expr::Int(IntExpr { value }))
    }

    fn parse_const(&mut self) -> (r: Result<Expr, &'static str>)
        requires
            old(self).wf(),
            old(self).tokens.len() > 0,
        ensures
            final(self).tokens == old(self).tokens,
            final(self).reporter == old(self).reporter,
            final(self).current_level == old(self).current_level,
            final(self).wf(),
            old(self).pos() <= final(self).pos(),
            final(self).pos() == spec_parse_const(old(self).toks(), old(self).pos()).next,
            result_matches(r, spec_parse_const(old(self).toks(), old(self).pos()).res),
        decreases rem(old(self).toks(), old(self).pos()), 2int,
    {
        let ghost toks = self.toks();
        let ghost pos0 = self.pos();

        let identifier_token = self.advance();
        if identifier_token.token_type != TokenType::IDENTIFIER {
            return Err("Missing identifier after function keyword");
        }

        let equal_token = self.advance();
        if equal_token.token_type != TokenType::EQUAL {
            return Err("Missing equal after identifier");
        }

        let token = self.advance();
        proof {
            // a cursor at or past the end hands back one saturated token, which
            // cannot have two different kinds: the checks above force pos0 inside
            assert(pos0 < toks.len());
        }
        let value = self.parse_expr(&token);

        match value {
            Err(message) => Err(message),
            Ok(v) => Ok(
                Expr::Const(ConstExpr { variable: identifier_token.lexeme, value: Box::new(v) }),
            ),
        }
    }

    fn parse_print(&mut self) -> (r: Result<Expr, &'static str>)
        requires
            old(self).wf(),
            old(self).tokens.len() > 0,
        ensures
            final(self).tokens == old(self).tokens,
            final(self).reporter == old(self).reporter,
            final(self).current_level == old(self).current_level,
            final(self).wf(),
            old(self).pos() <= final(self).pos(),
            final(self).pos() == spec_parse_print(old(self).toks(), old(self).pos()).next,
            result_matches(r, spec_parse_print(old(self).toks(), old(self).pos()).res),
        decreases rem(old(self).toks(), old(self).pos()), 2int,
    {
        let ghost toks = self.toks();
        let ghost pos0 = self.pos();

        let left_paren_token = self.advance();
        if left_paren_token.token_type != TokenType::LeftParen {
            return Err("Missing left paren after function name");
        }

        let mut values: Vec<Expr> = Vec::new();
        let mut current_token = self.advance();
        proof {
            lemma_models_of(values@);
            assert(models_of(values@) =~= Seq::<ExprModel>::empty());
        }

        while current_token.token_type != TokenType::RightParen && !self.is_at_end()
            invariant
                self.wf(),
                self.tokens.len() > 0,
                toks == self.toks(),
                self.tokens == old(self).tokens,
                self.reporter == old(self).reporter,
                self.current_level == old(self).current_level,
                old(self).pos() <= self.pos(),
                old(self).pos() < self.pos() || old(self).pos() >= toks.len(),
                spec_print_loop(toks, self.pos(), current_token@, models_of(values@))
                    == spec_parse_print(toks, old(self).pos()),
            decreases rem(toks, self.pos()),
        {
            let ghost iter_pos = self.pos();
            let expr_result = self.parse_expr(&current_token);
            match expr_result {
                Ok(e) => {
                    proof {
                        lemma_models_of_push(values@, e);
                    }
                    values.push(e);
                    current_token = self.advance();
                    if current_token.token_type != TokenType::COMMA && current_token.token_type
                        != TokenType::RightParen {
                        return Err("Comma missing after parameter");
                    } else if current_token.token_type == TokenType::COMMA {
                        current_token = self.advance();
                    }
                },
                Err(_) => {
                    return Ok(Expr::Print(PrintExpr { values }));
                },
            }
        }

        Ok(Expr::Print(PrintExpr { values }))
    }

    fn parse_function(&mut self) -> (r: Result<Expr, &'static str>)
        requires
            old(self).wf(),
            old(self).tokens.len() > 0,
        ensures
            final(self).tokens == old(self).tokens,
            final(self).reporter == old(self).reporter,
            final(self).current_level == old(self).current_level,
            final(self).wf(),
            old(self).pos() <= final(self).pos(),
            final(self).pos() == spec_parse_function(old(self).toks(), old(self).pos()).next,
            result_matches(r, spec_parse_function(old(self).toks(), old(self).pos()).res),
        decreases rem(old(self).toks(), old(self).pos()), 2int,
    {
        let ghost toks = self.toks();
        let ghost pos0 = self.pos();

        let identifier_token = self.advance();
        if identifier_token.token_type != TokenType::IDENTIFIER {
            return Err("Missing identifier after function keyword");
        }

        let left_paren_token = self.advance();
        if left_paren_token.token_type != TokenType::LeftParen {
            return Err("Missing left paren after function name");
        }

        let right_paren_token = self.advance();
        if right_paren_token.token_type != TokenType::RightParen {
            return Err("Missing right paren after after all params");
        }

        proof {
            // a cursor at or past the end hands back one saturated token, which
            // cannot have two different kinds: the checks above force pos0 inside
            assert(pos0 < toks.len());
        }

        // ignore line break
        self.advance();

        let level1 = self.advance();
        if level1.token_type != TokenType::SpaceLevel {
            return Err("Function body is missing");
        }

        let ghost p5 = self.pos();
        let mut level_number: usize = 1;

        while self.current_token_index < self.tokens.len() && self.peek().token_type
            == TokenType::SpaceLevel
            invariant
                self.wf(),
                self.tokens.len() > 0,
                toks == self.toks(),
                self.tokens == old(self).tokens,
                self.reporter == old(self).reporter,
                self.current_level == old(self).current_level,
                1 <= p5 <= self.pos() <= toks.len(),
                level_number as int == 1 + self.pos() - p5,
                marker_run_end(toks, p5) == marker_run_end(toks, self.pos()),
            decreases toks.len() - self.pos(),
        {
            level_number = level_number + 1;
            self.advance();
        }

        proof {
            assert(marker_run_end(toks, self.pos()) == self.pos());
            assert(level_number as nat == (1 + marker_run_end(toks, p5) - p5) as nat);
        }

        self.current_level = Ghost(self.current_level@ + level_number as int);

        let token = self.advance();
        let expr_result = self.parse_expr(&token);

        let mut body_expr_list: Vec<Expr> = Vec::new();
        let mut is_body_parsing: bool;

        match expr_result {
            Ok(v) => {
                proof {
                    lemma_models_of(body_expr_list@);
                    assert(models_of(body_expr_list@) =~= Seq::<ExprModel>::empty());
                    lemma_models_of_push(body_expr_list@, v);
                }
                body_expr_list.push(v);
                proof {
                    assert(models_of(body_expr_list@) =~= seq![v.model()]);
                }
                // ignore line break
                self.advance();
                is_body_parsing = true;
            },
            Err(_) => {
                proof {
                    lemma_models_of(body_expr_list@);
                    assert(models_of(body_expr_list@) =~= Seq::<ExprModel>::empty());
                }
                is_body_parsing = false;
            },
        }

        let ghost btarget = if is_body_parsing {
            spec_fn_body_loop(toks, self.pos(), level_number as nat, models_of(body_expr_list@))
        } else {
            FnBody { body: models_of(body_expr_list@), next: self.pos() }
        };

        while is_body_parsing && !self.is_at_end()
            invariant
                self.wf(),
                self.tokens.len() > 0,
                toks == self.toks(),
                self.tokens == old(self).tokens,
                self.reporter == old(self).reporter,
                self.current_level@ == old(self).current_level@ + level_number as int,
                level_number >= 1,
                old(self).pos() < self.pos(),
                if is_body_parsing {
                    btarget == spec_fn_body_loop(
                        toks,
                        self.pos(),
                        level_number as nat,
                        models_of(body_expr_list@),
                    )
                } else {
                    btarget == (FnBody { body: models_of(body_expr_list@), next: self.pos() })
                },
            decreases rem(toks, self.pos()),
        {
            let ghost line_pos = self.pos();
            let mut k: usize = 0;
            while k < level_number
                invariant
                    self.wf(),
                    self.tokens.len() > 0,
                    toks == self.toks(),
                    self.tokens == old(self).tokens,
                    self.reporter == old(self).reporter,
                    self.current_level@ == old(self).current_level@ + level_number as int,
                    k <= level_number,
                    line_pos <= toks.len(),
                    self.pos() == skip(toks, line_pos, k as nat),
                decreases level_number - k,
            {
                self.advance();
                k = k + 1;
            }

            let next_token = self.advance();
            let body_expr = self.parse_expr(&next_token);

            match body_expr {
                Ok(v) => {
                    proof {
                        lemma_models_of_push(body_expr_list@, v);
                    }
                    body_expr_list.push(v);
                    // ignore line break
                    self.advance();
                },
                Err(_) => {
                    is_body_parsing = false;
                },
            }
        }

        // walk the specification's own unfolding of this declaration and tie
        // each of its cursor positions to the one the code reached
        proof {
            if is_body_parsing {
                assert(at_end(toks, self.pos()));
                assert(btarget == spec_fn_body_loop(
                    toks,
                    self.pos(),
                    level_number as nat,
                    models_of(body_expr_list@),
                ));
                assert(btarget == (FnBody {
                    body: models_of(body_expr_list@),
                    next: self.pos(),
                }));
            }
            assert(btarget.body == models_of(body_expr_list@));
            assert(btarget.next == self.pos());
            let sp = spec_parse_function(toks, pos0);
            let id = tok_at(toks, pos0);
            let p1 = adv(toks, pos0);
            let lp = tok_at(toks, p1);
            let p2 = adv(toks, p1);
            let rp = tok_at(toks, p2);
            let p3 = adv(toks, p2);
            let p4 = adv(toks, p3);
            let lvl = tok_at(toks, p4);
            let p5s = adv(toks, p4);
            assert(id.kind == TokenType::IDENTIFIER);
            assert(lp.kind == TokenType::LeftParen);
            assert(rp.kind == TokenType::RightParen);
            assert(lvl.kind == TokenType::SpaceLevel);
            assert(p5s == p5);
            let q = marker_run_end(toks, p5s);
            let lv = (1 + q - p5s) as nat;
            assert(lv == level_number as nat);
            let t = tok_at(toks, q);
            let p6 = adv(toks, q);
            let rr = spec_parse_expr(toks, p6, t);
            match rr.res {
                Err(m) => {
                    assert(btarget.next == rr.next);
                    assert(btarget.body =~= Seq::<ExprModel>::empty());
                    assert(sp.next == rr.next);
                    assert(sp.res matches Ok(em) && em == (ExprModel::Function {
                        name: id.lexeme,
                        return_type: Box::new(ExprModel::Empty),
                        body: Seq::<ExprModel>::empty(),
                    }));
                },
                Ok(vm) => {
                    let n = clamp(toks, p6, rr.next);
                    let p7 = adv(toks, n);
                    let b = spec_fn_body_loop(toks, p7, lv, seq![vm]);
                    assert(btarget == b);
                    assert(sp.next == b.next);
                    assert(sp.res matches Ok(em) && em == (ExprModel::Function {
                        name: id.lexeme,
                        return_type: Box::new(ExprModel::Empty),
                        body: b.body,
                    }));
                },
            }
        }

        self.current_level = Ghost(self.current_level@ - level_number as int);

        let return_type_box = Box::new(Expr::Empty(EmptyExpr {}));
        proof {
            assert((*return_type_box).model() == ExprModel::Empty);
        }
        let result_expr = Expr::Function(
            FunctionExpr {
                name: identifier_token.lexeme,
                return_type: return_type_box,
                body: body_expr_list,
            },
        );
        proof {
            assert(result_expr.model() == (ExprModel::Function {
                name: tok_at(toks, pos0).lexeme,
                return_type: Box::new(ExprModel::Empty),
                body: btarget.body,
            }));
        }
        Ok(result_expr)
    }

    fn parse_expr(&mut self, token: &Token) -> (r: Result<Expr, &'static str>)
        requires
            old(self).wf(),
            old(self).tokens.len() > 0,
        ensures
            final(self).tokens == old(self).tokens,
            final(self).reporter == old(self).reporter,
            final(self).current_level == old(self).current_level,
            final(self).wf(),
            old(self).pos() <= final(self).pos(),
            final(self).pos() == spec_parse_expr(old(self).toks(), old(self).pos(), token@).next,
            result_matches(r, spec_parse_expr(old(self).toks(), old(self).pos(), token@).res),
        decreases rem(old(self).toks(), old(self).pos()), 3int,
    {
        if token.token_type == TokenType::FUNCTION {
            self.parse_function()
        } else if token.token_type == TokenType::CONST {
            self.parse_const()
        } else if token.token_type == TokenType::PRINT {
            self.parse_print()
        } else if token.token_type == TokenType::STRING {
            self.parse_string(token)
        } else if token.token_type == TokenType::INT {
            self.parse_int(token)
        } else if token.token_type == TokenType::IDENTIFIER {
            self.parse_variable(token)
        } else {
            Err("Could not parse an expression")
        }
    }

    /// One full walk. Builds the program from the held tokens, accumulating a
    /// diagnostic for each malformed top-level construct; the sink's sticky
    /// flag then says whether anything failed.
    pub fn parse_ast(&mut self) -> (ast: Ast)
        requires
            old(self).wf(),
            old(self).current_token_index == 0,
        ensures
            models_of(ast.expressions@) =~= spec_parse_ast(old(self).toks()).exprs,
            final(self).reporter.diagnostics.deep_view() =~= old(
                self,
            ).reporter.diagnostics.deep_view() + spec_parse_ast(old(self).toks()).diags,
            final(self).reporter.has_error == (old(self).reporter.has_error || spec_parse_ast(
                old(self).toks(),
            ).diags.len() > 0),
            final(self).tokens == old(self).tokens,
    {
        let ghost toks = self.toks();
        let ghost diags0 = self.reporter.diagnostics.deep_view();
        let ghost had_error = self.reporter.has_error;

        let mut ast = Ast { expressions: Vec::new() };
        proof {
            lemma_models_of(ast.expressions@);
            assert(models_of(ast.expressions@) =~= Seq::<ExprModel>::empty());
            assert(self.reporter.diagnostics.deep_view().skip(diags0.len() as int)
                =~= Seq::<DiagModel>::empty());
            assert(self.reporter.diagnostics.deep_view().subrange(0, diags0.len() as int)
                =~= diags0);
        }

        while !self.is_at_end()
            invariant
                self.wf(),
                toks == self.toks(),
                self.tokens == old(self).tokens,
                diags0.len() <= self.reporter.diagnostics.deep_view().len(),
                self.reporter.diagnostics.deep_view().subrange(0, diags0.len() as int) =~= diags0,
                spec_parse_loop(
                    toks,
                    self.pos(),
                    models_of(ast.expressions@),
                    self.reporter.diagnostics.deep_view().skip(diags0.len() as int),
                ) == spec_parse_ast(toks),
                self.reporter.has_error == (had_error || self.reporter.diagnostics.deep_view().len()
                    > diags0.len()),
            decreases rem(toks, self.pos()),
        {
            let token = self.advance();
            let expr = self.parse_expr(&token);

            if token.token_type == TokenType::LineBreak {
                continue;
            }

            match expr {
                Ok(e) => {
                    proof {
                        lemma_models_of_push(ast.expressions@, e);
                    }
                    ast.expressions.push(e);
                },
                Err(message) => {
                    let ghost dv_before = self.reporter.diagnostics.deep_view();
                    let message_string = String::from_str(message);
                    self.reporter.report_error(&token.file_name, token.line, &message_string);
                    proof {
                        assert(self.reporter.diagnostics.deep_view().skip(diags0.len() as int)
                            =~= dv_before.skip(diags0.len() as int).push(
                            DiagModel {
                                file: token@.file,
                                line: token@.line,
                                message: message_string@,
                            },
                        ));
                    }
                },
            }
        }

        proof {
            let dv = self.reporter.diagnostics.deep_view();
            assert(dv =~= dv.subrange(0, diags0.len() as int) + dv.skip(diags0.len() as int));
        }
        ast
    }
}

/// Reading further digits never shrinks the value.
proof fn lemma_digits_val_mono(s: Seq<char>, i: int, j: int)
    requires
        0 <= i <= j <= s.len(),
        forall|k: int| 0 <= k < j ==> crate::scan_model::is_digit_char(s[k]),
        digits_val(s.subrange(0, i)) >= 0,
    ensures
        digits_val(s.subrange(0, i)) <= digits_val(s.subrange(0, j)),
    decreases j - i,
{
    if i < j {
        assert(s.subrange(0, j).drop_last() =~= s.subrange(0, j - 1));
        assert(s.subrange(0, j).last() == s[j - 1]);
        lemma_digits_val_mono(s, i, j - 1);
    }
}

} // verus!
