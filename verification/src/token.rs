//! The token model: the shared vocabulary produced by the scanner and
//! consumed by the parser. A token is a classified, positioned fragment of
//! source text; it is immutable once created.

use vstd::prelude::*;

verus! {

/// The closed token taxonomy.
///
/// `COMMENT` and `SPACE` are filtered out before emission and never reach the
/// parser; `SpaceLevel` (one tab or two spaces of leading whitespace) and
/// `LineBreak` do reach it, since indentation is significant. `EOF` terminates
/// every scan, exactly once.
#[allow(non_camel_case_types)]
#[derive(PartialEq, Eq, Structural, Copy, Clone, Debug)]
pub enum TokenType {
    INVALID,
    // Special token types
    COMMENT,
    LineBreak,
    SPACE,
    SpaceLevel,
    // Single-character tokens
    COMMA,
    DOT,
    LeftParen,
    RightParen,
    MINUS,
    PLUS,
    // One or two character tokens
    EQUAL,
    BANG,
    BangEqual,
    EqualEqual,
    // Literals
    IDENTIFIER,
    STRING,
    INT,
    FLOAT,
    // Keywords
    IF,
    ELSE,
    WHILE,
    CONST,
    FUNCTION,
    PRINT,
    TRUE,
    FALSE,
    EOF,
}

/// A scanned token. The lexeme is the exact source substring the token was
/// derived from, except for `STRING` tokens, whose lexeme excludes the
/// surrounding quote characters. `line` is 1-based and monotonically
/// non-decreasing across an emitted sequence.
pub struct Token {
    pub token_type: TokenType,
    pub lexeme: String,
    pub file_name: String,
    pub line: usize,
}

/// The mathematical content of a [`Token`].
pub ghost struct TokenModel {
    pub kind: TokenType,
    pub lexeme: Seq<char>,
    pub file: Seq<char>,
    pub line: nat,
}

impl View for Token {
    type V = TokenModel;

    open spec fn view(&self) -> TokenModel {
        TokenModel {
            kind: self.token_type,
            lexeme: self.lexeme@,
            file: self.file_name@,
            line: self.line as nat,
        }
    }
}

impl DeepView for Token {
    type V = TokenModel;

    open spec fn deep_view(&self) -> TokenModel {
        self.view()
    }
}

/// The one-line rendering of a token for inspection output: punctuation
/// prints as itself, literals print their kind and lexeme, keywords print
/// under a `keyword:` prefix, and the reserved-but-unparsed keywords fall to
/// a placeholder.
pub open spec fn token_describe(t: TokenModel) -> Seq<char> {
    match t.kind {
        TokenType::INVALID => "Invalid token"@,
        TokenType::COMMA => ","@,
        TokenType::DOT => "."@,
        TokenType::LeftParen => "("@,
        TokenType::RightParen => ")"@,
        TokenType::MINUS => "-"@,
        TokenType::PLUS => "+"@,
        TokenType::EQUAL => "="@,
        TokenType::BANG => "!"@,
        TokenType::BangEqual => "!="@,
        TokenType::EqualEqual => "=="@,
        TokenType::IDENTIFIER => "Identifier (\""@ + t.lexeme + "\")"@,
        TokenType::STRING => "String (\""@ + t.lexeme + "\")"@,
        TokenType::INT => "Int (\""@ + t.lexeme + "\")"@,
        TokenType::FLOAT => "Float (\""@ + t.lexeme + "\")"@,
        TokenType::TRUE => "boolean: true"@,
        TokenType::FALSE => "boolean: false"@,
        TokenType::CONST => "keyword: const"@,
        TokenType::FUNCTION => "keyword: fun"@,
        TokenType::PRINT => "keyword: print"@,
        TokenType::SpaceLevel => ">"@,
        TokenType::SPACE => "<SPACE>"@,
        TokenType::LineBreak => "<BR>"@,
        TokenType::EOF => "<EOF>"@,
        _ => "<missing string>"@,
    }
}

impl Token {
    pub fn new(token_type: TokenType, lexeme: String, file_name: String, line: usize) -> (t: Token)
        ensures
            t@ == (TokenModel {
                kind: token_type,
                lexeme: lexeme@,
                file: file_name@,
                line: line as nat,
            }),
    {
        Token { token_type, lexeme, file_name, line }
    }

    /// Renders this token as [`token_describe`] says.
    pub fn describe(&self) -> (r: String)
        ensures
            r@ == token_describe(self@),
    {
        match self.token_type {
            TokenType::INVALID => String::from_str("Invalid token"),
            TokenType::COMMA => String::from_str(","),
            TokenType::DOT => String::from_str("."),
            TokenType::LeftParen => String::from_str("("),
            TokenType::RightParen => String::from_str(")"),
            TokenType::MINUS => String::from_str("-"),
            TokenType::PLUS => String::from_str("+"),
            TokenType::EQUAL => String::from_str("="),
            TokenType::BANG => String::from_str("!"),
            TokenType::BangEqual => String::from_str("!="),
            TokenType::EqualEqual => String::from_str("=="),
            TokenType::IDENTIFIER => self.describe_with_lexeme("Identifier (\""),
            TokenType::STRING => self.describe_with_lexeme("String (\""),
            TokenType::INT => self.describe_with_lexeme("Int (\""),
            TokenType::FLOAT => self.describe_with_lexeme("Float (\""),
            TokenType::TRUE => String::from_str("boolean: true"),
            TokenType::FALSE => String::from_str("boolean: false"),
            TokenType::CONST => String::from_str("keyword: const"),
            TokenType::FUNCTION => String::from_str("keyword: fun"),
            TokenType::PRINT => String::from_str("keyword: print"),
            TokenType::SpaceLevel => String::from_str(">"),
            TokenType::SPACE => String::from_str("<SPACE>"),
            TokenType::LineBreak => String::from_str("<BR>"),
            TokenType::EOF => String::from_str("<EOF>"),
            _ => String::from_str("<missing string>"),
        }
    }

    fn describe_with_lexeme(&self, prefix: &str) -> (r: String)
        ensures
            r@ == prefix@ + self.lexeme@ + "\")"@,
    {
        let mut s = String::from_str(prefix);
        s.append(self.lexeme.as_str());
        s.append("\")");
        proof {
            assert(s@ =~= prefix@ + self.lexeme@ + "\")"@);
        }
        s
    }
}

} // verus!
