use indent_lang::expressions::Expr;
use indent_lang::parser::{Ast, Parser};
use indent_lang::reporter::CodeReporter;
use indent_lang::scanner::Scanner;

fn parse(source: &str) -> (Ast, Parser) {
    let mut scanner = Scanner::new(CodeReporter::new());
    let tokens = scanner.scan_string("test.txt".to_string(), source.to_string());
    let mut parser = Parser::new(tokens);
    let ast = parser.parse_ast();
    (ast, parser)
}

#[test]
fn const_declaration_wraps_an_int_node() {
    let (ast, parser) = parse("const x = 5");
    assert!(!parser.reporter().has_error);
    assert_eq!(ast.expressions.len(), 1);
    match &ast.expressions[0] {
        Expr::Const(c) => {
            assert_eq!(c.variable, "x");
            match c.value.as_ref() {
                Expr::Int(i) => assert_eq!(i.value, 5),
                other => panic!("expected an Int value, got {}", name_of(other)),
            }
        }
        other => panic!("expected a Const node, got {}", name_of(other)),
    }
}

#[test]
fn print_with_two_string_arguments_in_order() {
    let (ast, parser) = parse("print(\"a\", \"b\")");
    assert!(!parser.reporter().has_error);
    assert_eq!(ast.expressions.len(), 1);
    match &ast.expressions[0] {
        Expr::Print(p) => {
            assert_eq!(p.values.len(), 2);
            match &p.values[0] {
                Expr::Str(s) => assert_eq!(s.value, "a"),
                other => panic!("expected a String node, got {}", name_of(other)),
            }
            match &p.values[1] {
                Expr::Str(s) => assert_eq!(s.value, "b"),
                other => panic!("expected a String node, got {}", name_of(other)),
            }
        }
        other => panic!("expected a Print node, got {}", name_of(other)),
    }
}

#[test]
fn empty_print_call_is_legal() {
    let (ast, parser) = parse("print()");
    assert!(!parser.reporter().has_error);
    assert_eq!(ast.expressions.len(), 1);
    match &ast.expressions[0] {
        Expr::Print(p) => assert_eq!(p.values.len(), 0),
        other => panic!("expected a Print node, got {}", name_of(other)),
    }
}

#[test]
fn function_with_one_indented_body_line() {
    let (ast, parser) = parse("fun f()\n\tprint(\"x\")");
    assert!(!parser.reporter().has_error);
    assert_eq!(ast.expressions.len(), 1);
    match &ast.expressions[0] {
        Expr::Function(f) => {
            assert_eq!(f.name, "f");
            match f.return_type.as_ref() {
                Expr::Empty(_) => {}
                other => panic!("expected an Empty return type, got {}", name_of(other)),
            }
            assert_eq!(f.body.len(), 1);
            match &f.body[0] {
                Expr::Print(p) => {
                    assert_eq!(p.values.len(), 1);
                    match &p.values[0] {
                        Expr::Str(s) => assert_eq!(s.value, "x"),
                        other => panic!("expected a String node, got {}", name_of(other)),
                    }
                }
                other => panic!("expected a Print node, got {}", name_of(other)),
            }
        }
        other => panic!("expected a Function node, got {}", name_of(other)),
    }
}

#[test]
fn function_with_two_space_indentation() {
    let (ast, _) = parse("fun g()\n  print()");
    assert_eq!(ast.expressions.len(), 1);
    match &ast.expressions[0] {
        Expr::Function(f) => {
            assert_eq!(f.name, "g");
            assert_eq!(f.body.len(), 1);
        }
        other => panic!("expected a Function node, got {}", name_of(other)),
    }
}

#[test]
fn function_with_two_body_lines() {
    let (ast, _) = parse("fun f()\n\tprint(\"a\")\n\tprint(\"b\")\n");
    assert_eq!(ast.expressions.len(), 1);
    match &ast.expressions[0] {
        Expr::Function(f) => {
            assert_eq!(f.body.len(), 2);
        }
        other => panic!("expected a Function node, got {}", name_of(other)),
    }
}

#[test]
fn function_without_body_fails_with_the_body_missing_message() {
    let (ast, parser) = parse("fun f()\n");
    assert_eq!(ast.expressions.len(), 0);
    let reporter = parser.reporter();
    assert!(reporter.has_error);
    assert_eq!(reporter.diagnostics.len(), 1);
    assert_eq!(reporter.diagnostics[0].message, "Function body is missing");
}

#[test]
fn function_without_body_at_end_of_input_fails_the_same_way() {
    let (ast, parser) = parse("fun f()");
    assert_eq!(ast.expressions.len(), 0);
    assert!(parser.reporter().has_error);
    assert_eq!(parser.reporter().diagnostics[0].message, "Function body is missing");
}

#[test]
fn missing_identifier_after_const() {
    // only the offending token is dropped: the `5` then parses on its own
    let (ast, parser) = parse("const = 5");
    assert_eq!(
        parser.reporter().diagnostics[0].message,
        "Missing identifier after function keyword"
    );
    assert_eq!(ast.expressions.len(), 1);
    match &ast.expressions[0] {
        Expr::Int(i) => assert_eq!(i.value, 5),
        other => panic!("expected an Int node, got {}", name_of(other)),
    }
}

#[test]
fn missing_equal_after_const_identifier() {
    let (ast, parser) = parse("const x 5");
    assert_eq!(ast.expressions.len(), 0);
    assert_eq!(parser.reporter().diagnostics[0].message, "Missing equal after identifier");
}

#[test]
fn missing_left_paren_after_print() {
    let (_, parser) = parse("print \"a\"");
    assert_eq!(
        parser.reporter().diagnostics[0].message,
        "Missing left paren after function name"
    );
}

#[test]
fn missing_comma_between_print_arguments() {
    let (_, parser) = parse("print(\"a\" \"b\")");
    assert_eq!(parser.reporter().diagnostics[0].message, "Comma missing after parameter");
}

#[test]
fn missing_right_paren_in_function_declaration() {
    let (_, parser) = parse("fun f(\n");
    assert_eq!(
        parser.reporter().diagnostics[0].message,
        "Missing right paren after after all params"
    );
}

#[test]
fn unrecognized_construct_reports_and_continues() {
    let (ast, parser) = parse("+\nprint()\n");
    assert_eq!(ast.expressions.len(), 1);
    let reporter = parser.reporter();
    assert!(reporter.has_error);
    assert_eq!(reporter.diagnostics.len(), 1);
    assert_eq!(reporter.diagnostics[0].message, "Could not parse an expression");
    assert_eq!(reporter.diagnostics[0].line, 1);
}

#[test]
fn top_level_line_breaks_are_skipped_silently() {
    let (ast, parser) = parse("\n\nprint()\n\n");
    assert!(!parser.reporter().has_error);
    assert_eq!(ast.expressions.len(), 1);
}

#[test]
fn top_level_literals_and_identifiers_parse() {
    let (ast, parser) = parse("\"s\"\n12\nname\n");
    assert!(!parser.reporter().has_error);
    assert_eq!(ast.expressions.len(), 3);
    match &ast.expressions[0] {
        Expr::Str(s) => assert_eq!(s.value, "s"),
        other => panic!("expected a String node, got {}", name_of(other)),
    }
    match &ast.expressions[1] {
        Expr::Int(i) => assert_eq!(i.value, 12),
        other => panic!("expected an Int node, got {}", name_of(other)),
    }
    match &ast.expressions[2] {
        Expr::Variable(v) => assert_eq!(v.name, "name"),
        other => panic!("expected a Variable node, got {}", name_of(other)),
    }
}

#[test]
fn largest_int_literal_parses_exactly() {
    let (ast, parser) = parse("const big = 9223372036854775807");
    assert!(!parser.reporter().has_error);
    match &ast.expressions[0] {
        Expr::Const(c) => match c.value.as_ref() {
            Expr::Int(i) => assert_eq!(i.value, i64::MAX),
            other => panic!("expected an Int value, got {}", name_of(other)),
        },
        other => panic!("expected a Const node, got {}", name_of(other)),
    }
}

#[test]
fn out_of_range_int_literal_is_reported() {
    let (ast, parser) = parse("9223372036854775808");
    assert_eq!(ast.expressions.len(), 0);
    assert!(parser.reporter().has_error);
    assert_eq!(parser.reporter().diagnostics[0].message, "Invalid integer literal");
}

#[test]
fn float_literal_is_not_a_parseable_expression() {
    let (ast, parser) = parse("1.5");
    assert_eq!(ast.expressions.len(), 0);
    assert!(parser.reporter().has_error);
    assert_eq!(parser.reporter().diagnostics[0].message, "Could not parse an expression");
}

#[test]
fn diagnostics_carry_the_triggering_line() {
    let (_, parser) = parse("print()\n+\n");
    let reporter = parser.reporter();
    assert_eq!(reporter.diagnostics.len(), 1);
    assert_eq!(reporter.diagnostics[0].line, 2);
    assert_eq!(reporter.diagnostics[0].file, "test.txt");
}

#[test]
fn empty_token_list_parses_to_an_empty_program() {
    let mut parser = Parser::new(Vec::new());
    let ast = parser.parse_ast();
    assert_eq!(ast.expressions.len(), 0);
    assert!(!parser.reporter().has_error);
}

fn name_of(e: &Expr) -> &'static str {
    match e {
        Expr::Empty(_) => "Empty",
        Expr::Function(_) => "Function",
        Expr::Print(_) => "Print",
        Expr::Const(_) => "Const",
        Expr::Str(_) => "String",
        Expr::Variable(_) => "Variable",
        Expr::Int(_) => "Int",
    }
}
