//! The AST node model: a closed set of seven expression variants, each node
//! exclusively owning its children (a strict tree), immutable after
//! construction. Every node can render itself as a human-readable line
//! (`dump`) and accepts a visitor over the full variant set — the seam at
//! which an execution backend attaches.

use vstd::prelude::*;
use vstd::string::StrSliceExecFns;
use vstd::string::StringExecFns;
use vstd::arithmetic::div_mod::lemma_div_decreases;

verus! {

/// Placeholder node: unparseable-but-tolerated, and the return type of
/// functions (the grammar has no return-type syntax).
pub struct EmptyExpr {}

/// `fun NAME()` followed by an indented body.
pub struct FunctionExpr {
    pub name: String,
    pub return_type: Box<Expr>,
    pub body: Vec<Expr>,
}

/// `print(...)` with zero or more comma-separated arguments.
pub struct PrintExpr {
    pub values: Vec<Expr>,
}

/// `const NAME = value`.
pub struct ConstExpr {
    pub variable: String,
    pub value: Box<Expr>,
}

/// A string literal, quotes excluded.
pub struct StringExpr {
    pub value: String,
}

/// An identifier reference.
pub struct VariableExpr {
    pub name: String,
}

/// An integer literal.
pub struct IntExpr {
    pub value: i64,
}

/// The tagged union over the variant structs: the type of every tree node.
pub enum Expr {
    Empty(EmptyExpr),
    Function(FunctionExpr),
    Print(PrintExpr),
    Const(ConstExpr),
    Str(StringExpr),
    Variable(VariableExpr),
    Int(IntExpr),
}

/// The mathematical content of an expression tree.
pub ghost enum ExprModel {
    Empty,
    Function { name: Seq<char>, return_type: Box<ExprModel>, body: Seq<ExprModel> },
    Print { values: Seq<ExprModel> },
    Const { name: Seq<char>, value: Box<ExprModel> },
    Str { value: Seq<char> },
    Variable { name: Seq<char> },
    Int { value: int },
}

impl Expr {
    /// The tree's mathematical content, children included.
    pub open spec fn model(self) -> ExprModel
        decreases self, 0int,
    {
        match self {
            Expr::Empty(_) => ExprModel::Empty,
            Expr::Function(f) => ExprModel::Function {
                name: f.name@,
                return_type: Box::new((*f.return_type).model()),
                body: models_from(f.body@, 0),
            },
            Expr::Print(p) => ExprModel::Print { values: models_from(p.values@, 0) },
            Expr::Const(c) => ExprModel::Const {
                name: c.variable@,
                value: Box::new((*c.value).model()),
            },
            Expr::Str(s) => ExprModel::Str { value: s.value@ },
            Expr::Variable(v) => ExprModel::Variable { name: v.name@ },
            Expr::Int(i) => ExprModel::Int { value: i.value as int },
        }
    }
}

impl View for Expr {
    type V = ExprModel;

    open spec fn view(&self) -> ExprModel {
        self.model()
    }
}

/// The models of the trees `s[i..]`, in order.
pub open spec fn models_from(s: Seq<Expr>, i: int) -> Seq<ExprModel>
    decreases s, s.len() - i,
{
    if 0 <= i < s.len() {
        seq![s[i].model()] + models_from(s, i + 1)
    } else {
        Seq::empty()
    }
}

/// The models of a list of trees, in order.
pub open spec fn models_of(s: Seq<Expr>) -> Seq<ExprModel> {
    models_from(s, 0)
}

pub proof fn lemma_models_from(s: Seq<Expr>, i: int)
    requires
        0 <= i <= s.len(),
    ensures
        models_from(s, i).len() == s.len() - i,
        forall|j: int| 0 <= j < s.len() - i ==> models_from(s, i)[j] == s[i + j].model(),
    decreases s.len() - i,
{
    if i < s.len() {
        lemma_models_from(s, i + 1);
    }
}

/// Index-wise reading of [`models_of`].
pub proof fn lemma_models_of(s: Seq<Expr>)
    ensures
        models_of(s).len() == s.len(),
        forall|j: int| 0 <= j < s.len() ==> models_of(s)[j] == s[j].model(),
{
    lemma_models_from(s, 0);
}

/// Appending a tree appends its model.
pub proof fn lemma_models_of_push(s: Seq<Expr>, e: Expr)
    ensures
        models_of(s.push(e)) =~= models_of(s).push(e.model()),
{
    lemma_models_of(s.push(e));
    lemma_models_of(s);
}

/// The visitor half of the dispatch contract: one operation per variant, so a
/// consumer must handle the variant set exhaustively.
pub trait ExpressionVisitor {
    fn accept_empty(&self, expr: &EmptyExpr);

    fn accept_const(&self, expr: &ConstExpr);

    fn accept_func(&self, expr: &FunctionExpr);

    fn accept_print(&self, expr: &PrintExpr);

    fn accept_string(&self, expr: &StringExpr);

    fn accept_int(&self, expr: &IntExpr);

    fn accept_variable(&self, expr: &VariableExpr);
}

/// What every node offers: its model, a deterministic rendering, and double
/// dispatch to a visitor.
pub trait Expression {
    spec fn model(&self) -> ExprModel;

    fn dump(&self) -> (r: String)
        ensures
            r@ == dump_model(self.model()),
    ;

    fn accept<V: ExpressionVisitor>(&self, visitor: &V);
}

/// The decimal digits of `n`, most significant first.
pub open spec fn dec_digits(n: nat) -> Seq<char>
    decreases n,
    via dec_digits_decreases
{
    if n < 10 {
        seq![digit_char(n)]
    } else {
        dec_digits(n / 10) + seq![digit_char(n % 10)]
    }
}

#[via_fn]
proof fn dec_digits_decreases(n: nat) {
    if n >= 10 {
        lemma_div_decreases(n as int, 10);
    }
}

/// The character for one decimal digit.
pub open spec fn digit_char(d: nat) -> char {
    if d == 0 {
        '0'
    } else if d == 1 {
        '1'
    } else if d == 2 {
        '2'
    } else if d == 3 {
        '3'
    } else if d == 4 {
        '4'
    } else if d == 5 {
        '5'
    } else if d == 6 {
        '6'
    } else if d == 7 {
        '7'
    } else if d == 8 {
        '8'
    } else {
        '9'
    }
}

/// The decimal rendering of a signed integer.
pub open spec fn int_dec_str(v: int) -> Seq<char> {
    if v < 0 {
        seq!['-'] + dec_digits((-v) as nat)
    } else {
        dec_digits(v as nat)
    }
}

/// The rendering of one node (and, for `Function` and `Print`, its children):
/// a tag naming the variant, then the node's own content.
pub open spec fn dump_model(m: ExprModel) -> Seq<char>
    decreases m, 0int,
{
    match m {
        ExprModel::Empty => "<empty>"@,
        ExprModel::Const { name, value } => "<Const> "@ + name + " = "@ + dump_model(*value),
        ExprModel::Function { name, return_type, body } => "<Func> "@ + name + "\n"@ + dump_body(
            body,
            0,
        ),
        ExprModel::Str { value } => "<String> \""@ + value + "\""@,
        ExprModel::Int { value } => "<Int> \""@ + int_dec_str(value) + "\""@,
        ExprModel::Variable { name } => "<Variable> \""@ + name + "\""@,
        ExprModel::Print { values } => "<Print> "@ + dump_values(values, 0),
    }
}

/// The body lines of a `Function` rendering, one per child, from `i` on.
pub open spec fn dump_body(ms: Seq<ExprModel>, i: int) -> Seq<char>
    decreases ms, ms.len() - i,
{
    if 0 <= i < ms.len() {
        "<Body-Expr> "@ + dump_model(ms[i]) + "\n"@ + dump_body(ms, i + 1)
    } else {
        Seq::empty()
    }
}

/// The argument list of a `Print` rendering, each child followed by a comma
/// and a space, from `i` on.
pub open spec fn dump_values(ms: Seq<ExprModel>, i: int) -> Seq<char>
    decreases ms, ms.len() - i,
{
    if 0 <= i < ms.len() {
        dump_model(ms[i]) + ", "@ + dump_values(ms, i + 1)
    } else {
        Seq::empty()
    }
}

fn digit_str(d: u64) -> (r: &'static str)
    requires
        d < 10,
    ensures
        r@ =~= seq![digit_char(d as nat)],
{
    if d == 0 {
        proof { reveal_strlit("0"); }
        "0"
    } else if d == 1 {
        proof { reveal_strlit("1"); }
        "1"
    } else if d == 2 {
        proof { reveal_strlit("2"); }
        "2"
    } else if d == 3 {
        proof { reveal_strlit("3"); }
        "3"
    } else if d == 4 {
        proof { reveal_strlit("4"); }
        "4"
    } else if d == 5 {
        proof { reveal_strlit("5"); }
        "5"
    } else if d == 6 {
        proof { reveal_strlit("6"); }
        "6"
    } else if d == 7 {
        proof { reveal_strlit("7"); }
        "7"
    } else if d == 8 {
        proof { reveal_strlit("8"); }
        "8"
    } else {
        proof { reveal_strlit("9"); }
        "9"
    }
}

fn push_digits(s: &mut String, n: u64)
    ensures
        final(s)@ =~= old(s)@ + dec_digits(n as nat),
    decreases n,
{
    if n < 10 {
        s.append(digit_str(n));
    } else {
        proof {
            lemma_div_decreases(n as int, 10);
        }
        push_digits(s, n / 10);
        s.append(digit_str(n % 10));
        proof {
            assert(s@ =~= old(s)@ + dec_digits(n as nat));
        }
    }
}

/// Renders `value` in decimal, a leading minus sign for negative values.
fn int_to_string(value: i64) -> (r: String)
    ensures
        r@ =~= int_dec_str(value as int),
{
    let mut s = String::new();
    if value < 0 {
        proof { reveal_strlit("-"); }
        s.append("-");
        let wide: i128 = value as i128;
        let magnitude: u64 = (-wide) as u64;
        assert(magnitude as nat == (-(value as int)) as nat);
        push_digits(&mut s, magnitude);
    } else {
        push_digits(&mut s, value as u64);
    }
    s
}

impl Expr {
    /// Renders this node, dispatching on its variant.
    pub fn render(&self) -> (r: String)
        ensures
            r@ == dump_model(self.model()),
        decreases *self,
    {
        match self {
            Expr::Empty(e) => render_empty(e),
            Expr::Function(f) => render_function(f),
            Expr::Print(p) => render_print(p),
            Expr::Const(c) => render_const(c),
            Expr::Str(s) => render_string(s),
            Expr::Variable(v) => render_variable(v),
            Expr::Int(i) => render_int(i),
        }
    }
}

fn render_empty(e: &EmptyExpr) -> (r: String)
    ensures
        r@ == dump_model(ExprModel::Empty),
{
    String::from_str("<empty>")
}

fn render_string(e: &StringExpr) -> (r: String)
    ensures
        r@ == dump_model((ExprModel::Str { value: e.value@ })),
{
    let mut s = String::from_str("<String> \"");
    s.append(e.value.as_str());
    s.append("\"");
    proof {
        assert(s@ =~= "<String> \""@ + e.value@ + "\""@);
    }
    s
}

fn render_variable(e: &VariableExpr) -> (r: String)
    ensures
        r@ == dump_model((ExprModel::Variable { name: e.name@ })),
{
    let mut s = String::from_str("<Variable> \"");
    s.append(e.name.as_str());
    s.append("\"");
    proof {
        assert(s@ =~= "<Variable> \""@ + e.name@ + "\""@);
    }
    s
}

fn render_int(e: &IntExpr) -> (r: String)
    ensures
        r@ == dump_model((ExprModel::Int { value: e.value as int })),
{
    let mut s = String::from_str("<Int> \"");
    let digits = int_to_string(e.value);
    s.append(digits.as_str());
    s.append("\"");
    proof {
        assert(s@ =~= "<Int> \""@ + int_dec_str(e.value as int) + "\""@);
    }
    s
}

fn render_const(e: &ConstExpr) -> (r: String)
    ensures
        r@ == dump_model(e.model()),
    decreases *e,
{
    let mut s = String::from_str("<Const> ");
    s.append(e.variable.as_str());
    s.append(" = ");
    let value_str = e.value.render();
    s.append(value_str.as_str());
    proof {
        assert(s@ =~= "<Const> "@ + e.variable@ + " = "@ + dump_model((*e.value).model()));
    }
    s
}

fn render_function(e: &FunctionExpr) -> (r: String)
    ensures
        r@ == dump_model(e.model()),
    decreases *e,
{
    let ghost ms = models_of(e.body@);
    proof {
        lemma_models_of(e.body@);
    }
    let mut parameters_output = String::new();
    let mut i: usize = 0;
    while i < e.body.len()
        invariant
            i <= e.body.len(),
            ms == models_of(e.body@),
            ms.len() == e.body@.len(),
            forall|j: int| 0 <= j < e.body@.len() ==> ms[j] == e.body@[j].model(),
            parameters_output@ + dump_body(ms, i as int) =~= dump_body(ms, 0),
        decreases e.body.len() - i,
    {
        let ghost before = parameters_output@;
        parameters_output.append("<Body-Expr> ");
        let piece = e.body[i].render();
        parameters_output.append(piece.as_str());
        parameters_output.append("\n");
        proof {
            assert(parameters_output@ =~= before + ("<Body-Expr> "@ + dump_model(ms[i as int])
                + "\n"@));
            assert(before + ("<Body-Expr> "@ + dump_model(ms[i as int]) + "\n"@) + dump_body(
                ms,
                i as int + 1,
            ) =~= before + dump_body(ms, i as int));
        }
        i = i + 1;
    }
    let mut s = String::from_str("<Func> ");
    s.append(e.name.as_str());
    s.append("\n");
    s.append(parameters_output.as_str());
    proof {
        assert(s@ =~= "<Func> "@ + e.name@ + "\n"@ + dump_body(ms, 0));
    }
    s
}

fn render_print(e: &PrintExpr) -> (r: String)
    ensures
        r@ == dump_model(e.model()),
    decreases *e,
{
    let ghost ms = models_of(e.values@);
    proof {
        lemma_models_of(e.values@);
    }
    let mut parameters_output = String::new();
    let mut i: usize = 0;
    while i < e.values.len()
        invariant
            i <= e.values.len(),
            ms == models_of(e.values@),
            ms.len() == e.values@.len(),
            forall|j: int| 0 <= j < e.values@.len() ==> ms[j] == e.values@[j].model(),
            parameters_output@ + dump_values(ms, i as int) =~= dump_values(ms, 0),
        decreases e.values.len() - i,
    {
        let ghost before = parameters_output@;
        let piece = e.values[i].render();
        parameters_output.append(piece.as_str());
        parameters_output.append(", ");
        proof {
            assert(parameters_output@ =~= before + (dump_model(ms[i as int]) + ", "@));
            assert(before + (dump_model(ms[i as int]) + ", "@) + dump_values(ms, i as int + 1)
                =~= before + dump_values(ms, i as int));
        }
        i = i + 1;
    }
    let mut s = String::from_str("<Print> ");
    s.append(parameters_output.as_str());
    proof {
        assert(s@ =~= "<Print> "@ + dump_values(ms, 0));
    }
    s
}

impl EmptyExpr {
    /// The model of this node seen on its own.
    pub open spec fn model(&self) -> ExprModel {
        ExprModel::Empty
    }
}

impl ConstExpr {
    pub open spec fn model(&self) -> ExprModel {
        ExprModel::Const { name: self.variable@, value: Box::new((*self.value).model()) }
    }
}

impl FunctionExpr {
    pub open spec fn model(&self) -> ExprModel {
        ExprModel::Function {
            name: self.name@,
            return_type: Box::new((*self.return_type).model()),
            body: models_of(self.body@),
        }
    }
}

impl PrintExpr {
    pub open spec fn model(&self) -> ExprModel {
        ExprModel::Print { values: models_of(self.values@) }
    }
}

impl StringExpr {
    pub open spec fn model(&self) -> ExprModel {
        ExprModel::Str { value: self.value@ }
    }
}

impl VariableExpr {
    pub open spec fn model(&self) -> ExprModel {
        ExprModel::Variable { name: self.name@ }
    }
}

impl IntExpr {
    pub open spec fn model(&self) -> ExprModel {
        ExprModel::Int { value: self.value as int }
    }
}

impl Expression for EmptyExpr {
    open spec fn model(&self) -> ExprModel {
        EmptyExpr::model(self)
    }

    fn dump(&self) -> (r: String) {
        render_empty(self)
    }

    fn accept<V: ExpressionVisitor>(&self, visitor: &V) {
        visitor.accept_empty(self);
    }
}

impl Expression for ConstExpr {
    open spec fn model(&self) -> ExprModel {
        ConstExpr::model(self)
    }

    fn dump(&self) -> (r: String) {
        render_const(self)
    }

    fn accept<V: ExpressionVisitor>(&self, visitor: &V) {
        visitor.accept_const(self);
    }
}

impl Expression for FunctionExpr {
    open spec fn model(&self) -> ExprModel {
        FunctionExpr::model(self)
    }

    fn dump(&self) -> (r: String) {
        render_function(self)
    }

    fn accept<V: ExpressionVisitor>(&self, visitor: &V) {
        visitor.accept_func(self);
    }
}

impl Expression for PrintExpr {
    open spec fn model(&self) -> ExprModel {
        PrintExpr::model(self)
    }

    fn dump(&self) -> (r: String) {
        render_print(self)
    }

    fn accept<V: ExpressionVisitor>(&self, visitor: &V) {
        visitor.accept_print(self);
    }
}

impl Expression for StringExpr {
    open spec fn model(&self) -> ExprModel {
        StringExpr::model(self)
    }

    fn dump(&self) -> (r: String) {
        render_string(self)
    }

    fn accept<V: ExpressionVisitor>(&self, visitor: &V) {
        visitor.accept_string(self);
    }
}

impl Expression for IntExpr {
    open spec fn model(&self) -> ExprModel {
        IntExpr::model(self)
    }

    fn dump(&self) -> (r: String) {
        render_int(self)
    }

    fn accept<V: ExpressionVisitor>(&self, visitor: &V) {
        visitor.accept_int(self);
    }
}

impl Expression for VariableExpr {
    open spec fn model(&self) -> ExprModel {
        VariableExpr::model(self)
    }

    fn dump(&self) -> (r: String) {
        render_variable(self)
    }

    fn accept<V: ExpressionVisitor>(&self, visitor: &V) {
        visitor.accept_variable(self);
    }
}

impl Expression for Expr {
    open spec fn model(&self) -> ExprModel {
        Expr::model(*self)
    }

    fn dump(&self) -> (r: String) {
        self.render()
    }

    fn accept<V: ExpressionVisitor>(&self, visitor: &V) {
        match self {
            Expr::Empty(e) => visitor.accept_empty(e),
            Expr::Function(f) => visitor.accept_func(f),
            Expr::Print(p) => visitor.accept_print(p),
            Expr::Const(c) => visitor.accept_const(c),
            Expr::Str(s) => visitor.accept_string(s),
            Expr::Variable(v) => visitor.accept_variable(v),
            Expr::Int(i) => visitor.accept_int(i),
        }
    }
}

} // verus!
