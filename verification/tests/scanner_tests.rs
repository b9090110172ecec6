use indent_lang::reporter::CodeReporter;
use indent_lang::scanner::Scanner;
use indent_lang::token::{Token, TokenType};

fn scan(source: &str) -> Vec<Token> {
    let mut scanner = Scanner::new(CodeReporter::new());
    scanner.scan_string("test.txt".to_string(), source.to_string())
}

#[test]
fn comment_only_source_emits_just_eof() {
    let tokens = scan("# nothing but a comment");
    assert_eq!(tokens.len(), 1);
    assert_eq!(tokens[0].token_type, TokenType::EOF);
}

#[test]
fn comment_with_trailing_newline_keeps_line_break() {
    let tokens = scan("# a comment\n");
    assert_eq!(tokens.len(), 2);
    assert_eq!(tokens[0].token_type, TokenType::LineBreak);
    assert_eq!(tokens[1].token_type, TokenType::EOF);
}

#[test]
fn every_scan_ends_in_exactly_one_eof() {
    for source in ["", "print", "const x = 5", "\"unterminated", "@#!=\n\n", "fun f()\n\tprint(\"x\")"] {
        let tokens = scan(source);
        assert!(!tokens.is_empty());
        assert_eq!(tokens[tokens.len() - 1].token_type, TokenType::EOF);
        let eof_count = tokens.iter().filter(|t| t.token_type == TokenType::EOF).count();
        assert_eq!(eof_count, 1);
    }
}

#[test]
fn string_lexeme_excludes_the_quotes() {
    let tokens = scan("\"abc\"");
    assert_eq!(tokens[0].token_type, TokenType::STRING);
    assert_eq!(tokens[0].lexeme, "abc");
}

#[test]
fn empty_string_literal_has_empty_lexeme() {
    let tokens = scan("\"\"");
    assert_eq!(tokens[0].token_type, TokenType::STRING);
    assert_eq!(tokens[0].lexeme, "");
}

#[test]
fn unterminated_string_reports_exactly_one_diagnostic() {
    let mut scanner = Scanner::new(CodeReporter::new());
    let tokens = scanner.scan_string("test.txt".to_string(), "\"abc".to_string());
    assert_eq!(tokens.len(), 2);
    assert_eq!(tokens[0].token_type, TokenType::INVALID);
    assert_eq!(tokens[1].token_type, TokenType::EOF);
    let reporter = scanner.reporter();
    assert!(reporter.has_error);
    assert_eq!(reporter.diagnostics.len(), 1);
    assert_eq!(reporter.diagnostics[0].message, "Broken string");
    assert_eq!(reporter.diagnostics[0].file, "test.txt");
    assert_eq!(reporter.diagnostics[0].line, 1);
}

#[test]
fn string_broken_by_newline_reports_and_scanning_continues() {
    let mut scanner = Scanner::new(CodeReporter::new());
    let tokens = scanner.scan_string("test.txt".to_string(), "\"abc\nprint".to_string());
    assert_eq!(tokens[0].token_type, TokenType::INVALID);
    assert_eq!(tokens[1].token_type, TokenType::LineBreak);
    assert_eq!(tokens[2].token_type, TokenType::PRINT);
    assert!(scanner.reporter().has_error);
    assert_eq!(scanner.reporter().diagnostics.len(), 1);
}

#[test]
fn scanning_twice_with_fresh_pairs_is_byte_identical() {
    let source = "fun f()\n\tprint(\"x\", 12)\n# done\nconst y = 3.5\n";
    let first = scan(source);
    let second = scan(source);
    assert_eq!(first.len(), second.len());
    for (a, b) in first.iter().zip(second.iter()) {
        assert_eq!(a.token_type, b.token_type);
        assert_eq!(a.lexeme, b.lexeme);
        assert_eq!(a.file_name, b.file_name);
        assert_eq!(a.line, b.line);
    }
}

#[test]
fn single_character_tokens() {
    let kinds: Vec<TokenType> = scan("(),.+-").iter().map(|t| t.token_type).collect();
    assert_eq!(
        kinds,
        vec![
            TokenType::LeftParen,
            TokenType::RightParen,
            TokenType::COMMA,
            TokenType::DOT,
            TokenType::PLUS,
            TokenType::MINUS,
            TokenType::EOF,
        ]
    );
}

#[test]
fn bang_and_equal_peek_one_ahead() {
    let kinds: Vec<TokenType> = scan("!= == ! =").iter().map(|t| t.token_type).collect();
    assert_eq!(
        kinds,
        vec![
            TokenType::BangEqual,
            TokenType::EqualEqual,
            TokenType::BANG,
            TokenType::EQUAL,
            TokenType::EOF,
        ]
    );
}

#[test]
fn keywords_and_identifiers() {
    let kinds: Vec<TokenType> =
        scan("const fun print if else while true false foo").iter().map(|t| t.token_type).collect();
    assert_eq!(
        kinds,
        vec![
            TokenType::CONST,
            TokenType::FUNCTION,
            TokenType::PRINT,
            TokenType::IF,
            TokenType::ELSE,
            TokenType::WHILE,
            TokenType::TRUE,
            TokenType::FALSE,
            TokenType::IDENTIFIER,
            TokenType::EOF,
        ]
    );
}

#[test]
fn int_and_float_literals() {
    let tokens = scan("42 3.14");
    assert_eq!(tokens[0].token_type, TokenType::INT);
    assert_eq!(tokens[0].lexeme, "42");
    assert_eq!(tokens[1].token_type, TokenType::FLOAT);
    assert_eq!(tokens[1].lexeme, "3.14");
}

#[test]
fn number_lexeme_stops_before_trailing_dot() {
    let tokens = scan("7.x");
    assert_eq!(tokens[0].token_type, TokenType::INT);
    assert_eq!(tokens[0].lexeme, "7");
    assert_eq!(tokens[1].token_type, TokenType::DOT);
}

#[test]
fn tab_and_two_spaces_are_one_indent_marker() {
    let tokens = scan("\t");
    assert_eq!(tokens[0].token_type, TokenType::SpaceLevel);
    let tokens = scan("  ");
    assert_eq!(tokens[0].token_type, TokenType::SpaceLevel);
    // a single isolated space is insignificant and filtered
    let tokens = scan(" ");
    assert_eq!(tokens.len(), 1);
    assert_eq!(tokens[0].token_type, TokenType::EOF);
}

#[test]
fn line_numbers_are_one_based_and_grow_at_line_breaks() {
    let tokens = scan("a\nb\nc");
    assert_eq!(tokens[0].lexeme, "a");
    assert_eq!(tokens[0].line, 1);
    assert_eq!(tokens[1].token_type, TokenType::LineBreak);
    assert_eq!(tokens[1].line, 1);
    assert_eq!(tokens[2].lexeme, "b");
    assert_eq!(tokens[2].line, 2);
    assert_eq!(tokens[4].lexeme, "c");
    assert_eq!(tokens[4].line, 3);
}

#[test]
fn unknown_character_is_a_silent_invalid_token() {
    let mut scanner = Scanner::new(CodeReporter::new());
    let tokens = scanner.scan_string("test.txt".to_string(), "@".to_string());
    assert_eq!(tokens[0].token_type, TokenType::INVALID);
    assert_eq!(tokens[0].lexeme, "@");
    assert!(!scanner.reporter().has_error);
    assert!(scanner.reporter().diagnostics.is_empty());
}

#[test]
fn empty_source_scans_to_a_lone_eof() {
    let tokens = scan("");
    assert_eq!(tokens.len(), 1);
    assert_eq!(tokens[0].token_type, TokenType::EOF);
    assert_eq!(tokens[0].lexeme, "");
    assert_eq!(tokens[0].line, 1);
}

#[test]
fn tokens_carry_the_file_name() {
    let mut scanner = Scanner::new(CodeReporter::new());
    let tokens = scanner.scan_string("script.in".to_string(), "print".to_string());
    assert_eq!(tokens[0].file_name, "script.in");
}

#[test]
fn tokens_describe_themselves() {
    let tokens = scan("const x = \"hi\" != 7 print\t");
    let described: Vec<String> = tokens.iter().map(|t| t.describe()).collect();
    assert_eq!(
        described,
        vec![
            "keyword: const".to_string(),
            "Identifier (\"x\")".to_string(),
            "=".to_string(),
            "String (\"hi\")".to_string(),
            "!=".to_string(),
            "Int (\"7\")".to_string(),
            "keyword: print".to_string(),
            ">".to_string(),
            "<EOF>".to_string(),
        ]
    );
}

#[test]
fn special_tokens_describe_themselves() {
    let described: Vec<String> = scan("@\ntrue false 1.5 if else while").iter().map(|t| t.describe()).collect();
    assert_eq!(
        described,
        vec![
            "Invalid token".to_string(),
            "<BR>".to_string(),
            "boolean: true".to_string(),
            "boolean: false".to_string(),
            "Float (\"1.5\")".to_string(),
            "<missing string>".to_string(),
            "<missing string>".to_string(),
            "<missing string>".to_string(),
            "<EOF>".to_string(),
        ]
    );
}
