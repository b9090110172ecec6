use indent_lang::expressions::{
    ConstExpr, EmptyExpr, Expr, Expression, FunctionExpr, IntExpr, PrintExpr, StringExpr,
    VariableExpr,
};
use indent_lang::parser::Parser;
use indent_lang::reporter::CodeReporter;
use indent_lang::runtime::{InterpreterRuntime, RuntimeEngine};
use indent_lang::scanner::Scanner;

fn parse_and_dump(source: &str) -> String {
    let mut scanner = Scanner::new(CodeReporter::new());
    let tokens = scanner.scan_string("test.txt".to_string(), source.to_string());
    let mut parser = Parser::new(tokens);
    parser.parse_ast().dump()
}

#[test]
fn empty_node_dump() {
    assert_eq!(EmptyExpr {}.dump(), "<empty>");
}

#[test]
fn string_node_dump() {
    let node = StringExpr { value: "hi".to_string() };
    assert_eq!(node.dump(), "<String> \"hi\"");
}

#[test]
fn variable_node_dump() {
    let node = VariableExpr { name: "total".to_string() };
    assert_eq!(node.dump(), "<Variable> \"total\"");
}

#[test]
fn int_node_dump() {
    assert_eq!(IntExpr { value: 5 }.dump(), "<Int> \"5\"");
    assert_eq!(IntExpr { value: 0 }.dump(), "<Int> \"0\"");
    assert_eq!(IntExpr { value: 120450 }.dump(), "<Int> \"120450\"");
}

#[test]
fn int_node_dump_handles_negative_extremes() {
    assert_eq!(IntExpr { value: -7 }.dump(), "<Int> \"-7\"");
    assert_eq!(IntExpr { value: i64::MIN }.dump(), "<Int> \"-9223372036854775808\"");
    assert_eq!(IntExpr { value: i64::MAX }.dump(), "<Int> \"9223372036854775807\"");
}

#[test]
fn const_node_dump_nests_its_value() {
    let node = ConstExpr {
        variable: "x".to_string(),
        value: Box::new(Expr::Int(IntExpr { value: 5 })),
    };
    assert_eq!(node.dump(), "<Const> x = <Int> \"5\"");
}

#[test]
fn print_node_dump_lists_each_argument() {
    let node = PrintExpr {
        values: vec![
            Expr::Str(StringExpr { value: "a".to_string() }),
            Expr::Str(StringExpr { value: "b".to_string() }),
        ],
    };
    assert_eq!(node.dump(), "<Print> <String> \"a\", <String> \"b\", ");
}

#[test]
fn function_node_dump_has_a_header_and_body_lines() {
    let node = FunctionExpr {
        name: "f".to_string(),
        return_type: Box::new(Expr::Empty(EmptyExpr {})),
        body: vec![Expr::Str(StringExpr { value: "x".to_string() })],
    };
    assert_eq!(node.dump(), "<Func> f\n<Body-Expr> <String> \"x\"\n");
}

#[test]
fn ast_dump_renders_one_line_per_top_level_node() {
    let text = parse_and_dump("const x = 5\nprint(\"a\")\n");
    assert_eq!(text, "Expr: <Const> x = <Int> \"5\"\nExpr: <Print> <String> \"a\", \n");
}

#[test]
fn runtime_walks_a_parsed_program() {
    let mut scanner = Scanner::new(CodeReporter::new());
    let tokens = scanner.scan_string(
        "test.txt".to_string(),
        "const x = 5\nfun f()\n\tprint(\"x\")\n".to_string(),
    );
    let mut parser = Parser::new(tokens);
    let ast = parser.parse_ast();
    let runtime = InterpreterRuntime::new();
    runtime.execute_ast(&ast);
    for expression in &ast.expressions {
        runtime.execute_expr(expression);
    }
}
