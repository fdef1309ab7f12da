use vstd::prelude::*;
use crate::error::{LexError, LexErrorV};
use crate::number::{double_of_decimal, parse_double};

verus! {

/// The kinds of token that the scanner produces.
#[derive(Clone, Copy, Debug, PartialEq, Eq, Structural)]
pub enum TokenKind {
    LeftParen,
    RightParen,
    LeftBrace,
    RightBrace,
    Comma,
    Dot,
    Minus,
    Plus,
    Semicolon,
    Slash,
    Star,
    Bang,
    BangEqual,
    Equal,
    EqualEqual,
    GreaterThan,
    GreaterEqual,
    LessThan,
    LessEqual,
    Identifier,
    StringLiteral,
    Number,
    And,
    Class,
    Else,
    False,
    For,
    Fun,
    If,
    Null,
    Or,
    Print,
    Return,
    Super,
    This,
    True,
    Var,
    While,
    EOF,
}

/// A literal value as it stands in the source. A number is held as the bit pattern of the
/// IEEE-754 binary64 value that its text denotes.
#[derive(Clone, Debug, PartialEq)]
pub enum Literal {
    Number(u64),
    StringLiteral(String),
    Null,
    True,
    False,
}

/// The mathematical value of a `Literal`.
pub enum LiteralV {
    Number(u64),
    StringLiteral(Seq<char>),
    Null,
    True,
    False,
}

impl View for Literal {
    type V = LiteralV;

    open spec fn view(&self) -> LiteralV {
        match self {
            Literal::Number(n) => LiteralV::Number(*n),
            Literal::StringLiteral(s) => LiteralV::StringLiteral(s@),
            Literal::Null => LiteralV::Null,
            Literal::True => LiteralV::True,
            Literal::False => LiteralV::False,
        }
    }
}

impl Literal {
    /// A copy of this literal.
    pub fn duplicate(&self) -> (r: Literal)
        ensures
            r == *self,
    {
        match self {
            Literal::Number(n) => Literal::Number(*n),
            Literal::StringLiteral(s) => Literal::StringLiteral(s.clone()),
            Literal::Null => Literal::Null,
            Literal::True => Literal::True,
            Literal::False => Literal::False,
        }
    }
}

/// A classified fragment of source text: its kind, its exact text, the value of a number or
/// string literal, and the 1-based line on which it starts.
#[derive(Clone, Debug, PartialEq)]
pub struct Token {
    pub kind: TokenKind,
    pub lexeme: String,
    pub literal: Option<Literal>,
    pub line: usize,
}

/// The mathematical value of a `Token`.
pub struct TokenV {
    pub kind: TokenKind,
    pub lexeme: Seq<char>,
    pub literal: Option<LiteralV>,
    pub line: nat,
}

/// The view of an optional literal.
pub open spec fn literal_view(l: Option<Literal>) -> Option<LiteralV> {
    match l {
        Some(v) => Some(v@),
        None => None,
    }
}

impl View for Token {
    type V = TokenV;

    open spec fn view(&self) -> TokenV {
        TokenV {
            kind: self.kind,
            lexeme: self.lexeme@,
            literal: literal_view(self.literal),
            line: self.line as nat,
        }
    }
}

/// The views of a sequence of tokens.
pub open spec fn view_tokens(ts: Seq<Token>) -> Seq<TokenV> {
    ts.map_values(|t: Token| t@)
}


/// The kind whose name is `name`.
pub open spec fn kind_named(name: Seq<char>) -> Option<TokenKind> {
    if name == "LeftParen"@ {
        Some(TokenKind::LeftParen)
    } else if name == "RightParen"@ {
        Some(TokenKind::RightParen)
    } else if name == "LeftBrace"@ {
        Some(TokenKind::LeftBrace)
    } else if name == "RightBrace"@ {
        Some(TokenKind::RightBrace)
    } else if name == "Comma"@ {
        Some(TokenKind::Comma)
    } else if name == "Dot"@ {
        Some(TokenKind::Dot)
    } else if name == "Minus"@ {
        Some(TokenKind::Minus)
    } else if name == "Plus"@ {
        Some(TokenKind::Plus)
    } else if name == "Semicolon"@ {
        Some(TokenKind::Semicolon)
    } else if name == "Slash"@ {
        Some(TokenKind::Slash)
    } else if name == "Star"@ {
        Some(TokenKind::Star)
    } else if name == "Bang"@ {
        Some(TokenKind::Bang)
    } else if name == "BangEqual"@ {
        Some(TokenKind::BangEqual)
    } else if name == "Equal"@ {
        Some(TokenKind::Equal)
    } else if name == "EqualEqual"@ {
        Some(TokenKind::EqualEqual)
    } else if name == "GreaterThan"@ {
        Some(TokenKind::GreaterThan)
    } else if name == "GreaterEqual"@ {
        Some(TokenKind::GreaterEqual)
    } else if name == "LessThan"@ {
        Some(TokenKind::LessThan)
    } else if name == "LessEqual"@ {
        Some(TokenKind::LessEqual)
    } else if name == "Identifier"@ {
        Some(TokenKind::Identifier)
    } else if name == "StringLiteral"@ {
        Some(TokenKind::StringLiteral)
    } else if name == "Number"@ {
        Some(TokenKind::Number)
    } else if name == "And"@ {
        Some(TokenKind::And)
    } else if name == "Class"@ {
        Some(TokenKind::Class)
    } else if name == "Else"@ {
        Some(TokenKind::Else)
    } else if name == "False"@ {
        Some(TokenKind::False)
    } else if name == "For"@ {
        Some(TokenKind::For)
    } else if name == "Fun"@ {
        Some(TokenKind::Fun)
    } else if name == "If"@ {
        Some(TokenKind::If)
    } else if name == "Null"@ {
        Some(TokenKind::Null)
    } else if name == "Or"@ {
        Some(TokenKind::Or)
    } else if name == "Print"@ {
        Some(TokenKind::Print)
    } else if name == "Return"@ {
        Some(TokenKind::Return)
    } else if name == "Super"@ {
        Some(TokenKind::Super)
    } else if name == "This"@ {
        Some(TokenKind::This)
    } else if name == "True"@ {
        Some(TokenKind::True)
    } else if name == "Var"@ {
        Some(TokenKind::Var)
    } else if name == "While"@ {
        Some(TokenKind::While)
    } else if name == "EOF"@ {
        Some(TokenKind::EOF)
    } else {
        None
    }
}

/// The text of a token of kind `k`, for the kinds whose text is fixed.
pub open spec fn fixed_lexeme(k: TokenKind) -> Option<Seq<char>> {
    match k {
        TokenKind::LeftParen => Some("("@),
        TokenKind::RightParen => Some(")"@),
        TokenKind::LeftBrace => Some("{"@),
        TokenKind::RightBrace => Some("}"@),
        TokenKind::Comma => Some(","@),
        TokenKind::Dot => Some("."@),
        TokenKind::Minus => Some("-"@),
        TokenKind::Plus => Some("+"@),
        TokenKind::Semicolon => Some(";"@),
        TokenKind::Slash => Some("/"@),
        TokenKind::Star => Some("*"@),
        TokenKind::Bang => Some("!"@),
        TokenKind::BangEqual => Some("!="@),
        TokenKind::Equal => Some("="@),
        TokenKind::EqualEqual => Some("=="@),
        TokenKind::GreaterThan => Some(">"@),
        TokenKind::GreaterEqual => Some(">="@),
        TokenKind::LessThan => Some("<"@),
        TokenKind::LessEqual => Some("<="@),
        TokenKind::Identifier => None,
        TokenKind::StringLiteral => None,
        TokenKind::Number => None,
        TokenKind::And => Some("and"@),
        TokenKind::Class => Some("class"@),
        TokenKind::Else => Some("else"@),
        TokenKind::False => Some("false"@),
        TokenKind::For => Some("for"@),
        TokenKind::Fun => Some("fun"@),
        TokenKind::If => Some("if"@),
        TokenKind::Null => Some("null"@),
        TokenKind::Or => Some("or"@),
        TokenKind::Print => Some("print"@),
        TokenKind::Return => Some("return"@),
        TokenKind::Super => Some("super"@),
        TokenKind::This => Some("this"@),
        TokenKind::True => Some("true"@),
        TokenKind::Var => Some("var"@),
        TokenKind::While => Some("while"@),
        TokenKind::EOF => Some(""@),
    }
}

/// The regular expression that the lexemes of kind `k` match.
pub open spec fn regex_of(k: TokenKind) -> Seq<char> {
    match k {
        TokenKind::LeftParen => r"\("@,
        TokenKind::RightParen => r"\)"@,
        TokenKind::LeftBrace => r"\{"@,
        TokenKind::RightBrace => r"\}"@,
        TokenKind::Comma => r","@,
        TokenKind::Dot => r"\."@,
        TokenKind::Minus => r"\-"@,
        TokenKind::Plus => r"\+"@,
        TokenKind::Semicolon => r";"@,
        TokenKind::Slash => r"\/"@,
        TokenKind::Star => r"\*"@,
        TokenKind::Bang => r"\!"@,
        TokenKind::BangEqual => r"\!="@,
        TokenKind::Equal => r"="@,
        TokenKind::EqualEqual => r"=="@,
        TokenKind::GreaterThan => r">"@,
        TokenKind::GreaterEqual => r">="@,
        TokenKind::LessThan => r"<"@,
        TokenKind::LessEqual => r"<="@,
        TokenKind::Identifier => r"[a-zA-Z_][a-zA-Z0-9_]*"@,
        TokenKind::StringLiteral => r#""([^"\\]|\\.)*""#@,
        TokenKind::Number => r"\d+(\.\d+)?"@,
        TokenKind::And => r"\band\b"@,
        TokenKind::Class => r"\bclass\b"@,
        TokenKind::Else => r"\belse\b"@,
        TokenKind::False => r"\bfalse\b"@,
        TokenKind::For => r"\bfor\b"@,
        TokenKind::Fun => r"\bfun\b"@,
        TokenKind::If => r"\bif\b"@,
        TokenKind::Null => r"\bnull\b"@,
        TokenKind::Or => r"\bor\b"@,
        TokenKind::Print => r"\bprint\b"@,
        TokenKind::Return => r"\breturn\b"@,
        TokenKind::Super => r"\bsuper\b"@,
        TokenKind::This => r"\bthis\b"@,
        TokenKind::True => r"\btrue\b"@,
        TokenKind::Var => r"\bvar\b"@,
        TokenKind::While => r"\bwhile\b"@,
        TokenKind::EOF => r"$"@,
    }
}

/// Whether two texts are equal.
fn same_text(a: &str, b: &str) -> (r: bool)
    ensures
        r == (a@ == b@),
{
    let n = a.unicode_len();
    if n != b.unicode_len() {
        return false;
    }
    let mut i: usize = 0;
    while i < n
        invariant
            n == a@.len(),
            n == b@.len(),
            i <= n,
            forall|k: int| 0 <= k < i ==> a@[k] == b@[k],
        decreases n - i,
    {
        if a.get_char(i) != b.get_char(i) {
            return false;
        }
        i = i + 1;
    }
    assert(a@ =~= b@);
    true
}

/// The kind whose name is `name`.
fn kind_by_name(name: &str) -> (r: Option<TokenKind>)
    ensures
        r == kind_named(name@),
{
    if same_text(name, "LeftParen") {
        Some(TokenKind::LeftParen)
    } else if same_text(name, "RightParen") {
        Some(TokenKind::RightParen)
    } else if same_text(name, "LeftBrace") {
        Some(TokenKind::LeftBrace)
    } else if same_text(name, "RightBrace") {
        Some(TokenKind::RightBrace)
    } else if same_text(name, "Comma") {
        Some(TokenKind::Comma)
    } else if same_text(name, "Dot") {
        Some(TokenKind::Dot)
    } else if same_text(name, "Minus") {
        Some(TokenKind::Minus)
    } else if same_text(name, "Plus") {
        Some(TokenKind::Plus)
    } else if same_text(name, "Semicolon") {
        Some(TokenKind::Semicolon)
    } else if same_text(name, "Slash") {
        Some(TokenKind::Slash)
    } else if same_text(name, "Star") {
        Some(TokenKind::Star)
    } else if same_text(name, "Bang") {
        Some(TokenKind::Bang)
    } else if same_text(name, "BangEqual") {
        Some(TokenKind::BangEqual)
    } else if same_text(name, "Equal") {
        Some(TokenKind::Equal)
    } else if same_text(name, "EqualEqual") {
        Some(TokenKind::EqualEqual)
    } else if same_text(name, "GreaterThan") {
        Some(TokenKind::GreaterThan)
    } else if same_text(name, "GreaterEqual") {
        Some(TokenKind::GreaterEqual)
    } else if same_text(name, "LessThan") {
        Some(TokenKind::LessThan)
    } else if same_text(name, "LessEqual") {
        Some(TokenKind::LessEqual)
    } else if same_text(name, "Identifier") {
        Some(TokenKind::Identifier)
    } else if same_text(name, "StringLiteral") {
        Some(TokenKind::StringLiteral)
    } else if same_text(name, "Number") {
        Some(TokenKind::Number)
    } else if same_text(name, "And") {
        Some(TokenKind::And)
    } else if same_text(name, "Class") {
        Some(TokenKind::Class)
    } else if same_text(name, "Else") {
        Some(TokenKind::Else)
    } else if same_text(name, "False") {
        Some(TokenKind::False)
    } else if same_text(name, "For") {
        Some(TokenKind::For)
    } else if same_text(name, "Fun") {
        Some(TokenKind::Fun)
    } else if same_text(name, "If") {
        Some(TokenKind::If)
    } else if same_text(name, "Null") {
        Some(TokenKind::Null)
    } else if same_text(name, "Or") {
        Some(TokenKind::Or)
    } else if same_text(name, "Print") {
        Some(TokenKind::Print)
    } else if same_text(name, "Return") {
        Some(TokenKind::Return)
    } else if same_text(name, "Super") {
        Some(TokenKind::Super)
    } else if same_text(name, "This") {
        Some(TokenKind::This)
    } else if same_text(name, "True") {
        Some(TokenKind::True)
    } else if same_text(name, "Var") {
        Some(TokenKind::Var)
    } else if same_text(name, "While") {
        Some(TokenKind::While)
    } else if same_text(name, "EOF") {
        Some(TokenKind::EOF)
    } else {
        None
    }
}

/// The text of a token of kind `kind`, for the kinds whose text is fixed.
fn lexeme_of(kind: TokenKind) -> (r: Option<&'static str>)
    ensures
        match fixed_lexeme(kind) {
            Some(t) => r is Some && r->0@ == t,
            None => r is None,
        },
{
    match kind {
        TokenKind::LeftParen => Some("("),
        TokenKind::RightParen => Some(")"),
        TokenKind::LeftBrace => Some("{"),
        TokenKind::RightBrace => Some("}"),
        TokenKind::Comma => Some(","),
        TokenKind::Dot => Some("."),
        TokenKind::Minus => Some("-"),
        TokenKind::Plus => Some("+"),
        TokenKind::Semicolon => Some(";"),
        TokenKind::Slash => Some("/"),
        TokenKind::Star => Some("*"),
        TokenKind::Bang => Some("!"),
        TokenKind::BangEqual => Some("!="),
        TokenKind::Equal => Some("="),
        TokenKind::EqualEqual => Some("=="),
        TokenKind::GreaterThan => Some(">"),
        TokenKind::GreaterEqual => Some(">="),
        TokenKind::LessThan => Some("<"),
        TokenKind::LessEqual => Some("<="),
        TokenKind::Identifier => None,
        TokenKind::StringLiteral => None,
        TokenKind::Number => None,
        TokenKind::And => Some("and"),
        TokenKind::Class => Some("class"),
        TokenKind::Else => Some("else"),
        TokenKind::False => Some("false"),
        TokenKind::For => Some("for"),
        TokenKind::Fun => Some("fun"),
        TokenKind::If => Some("if"),
        TokenKind::Null => Some("null"),
        TokenKind::Or => Some("or"),
        TokenKind::Print => Some("print"),
        TokenKind::Return => Some("return"),
        TokenKind::Super => Some("super"),
        TokenKind::This => Some("this"),
        TokenKind::True => Some("true"),
        TokenKind::Var => Some("var"),
        TokenKind::While => Some("while"),
        TokenKind::EOF => Some(""),
    }
}

/// The regular expression that the lexemes of kind `kind` match.
fn regex_text(kind: TokenKind) -> (r: &'static str)
    ensures
        r@ == regex_of(kind),
{
    match kind {
        TokenKind::LeftParen => r"\(",
        TokenKind::RightParen => r"\)",
        TokenKind::LeftBrace => r"\{",
        TokenKind::RightBrace => r"\}",
        TokenKind::Comma => r",",
        TokenKind::Dot => r"\.",
        TokenKind::Minus => r"\-",
        TokenKind::Plus => r"\+",
        TokenKind::Semicolon => r";",
        TokenKind::Slash => r"\/",
        TokenKind::Star => r"\*",
        TokenKind::Bang => r"\!",
        TokenKind::BangEqual => r"\!=",
        TokenKind::Equal => r"=",
        TokenKind::EqualEqual => r"==",
        TokenKind::GreaterThan => r">",
        TokenKind::GreaterEqual => r">=",
        TokenKind::LessThan => r"<",
        TokenKind::LessEqual => r"<=",
        TokenKind::Identifier => r"[a-zA-Z_][a-zA-Z0-9_]*",
        TokenKind::StringLiteral => r#""([^"\\]|\\.)*""#,
        TokenKind::Number => r"\d+(\.\d+)?",
        TokenKind::And => r"\band\b",
        TokenKind::Class => r"\bclass\b",
        TokenKind::Else => r"\belse\b",
        TokenKind::False => r"\bfalse\b",
        TokenKind::For => r"\bfor\b",
        TokenKind::Fun => r"\bfun\b",
        TokenKind::If => r"\bif\b",
        TokenKind::Null => r"\bnull\b",
        TokenKind::Or => r"\bor\b",
        TokenKind::Print => r"\bprint\b",
        TokenKind::Return => r"\breturn\b",
        TokenKind::Super => r"\bsuper\b",
        TokenKind::This => r"\bthis\b",
        TokenKind::True => r"\btrue\b",
        TokenKind::Var => r"\bvar\b",
        TokenKind::While => r"\bwhile\b",
        TokenKind::EOF => r"$",
    }
}

/// The token that `get_token` builds from a kind's name and, for an identifier, a string or a
/// number, the value's text.
pub open spec fn named_token(name: Seq<char>, value: Option<Seq<char>>) -> Result<TokenV, LexErrorV> {
    match kind_named(name) {
        None => Err(LexErrorV::NotFound(name)),
        Some(kind) => match fixed_lexeme(kind) {
            Some(text) => Ok(TokenV { kind, lexeme: text, literal: None, line: 1 }),
            None => match value {
                None => Err(LexErrorV::ValueError(name)),
                Some(v) => if kind == TokenKind::Identifier {
                    Ok(TokenV { kind, lexeme: v, literal: None, line: 1 })
                } else if kind == TokenKind::StringLiteral {
                    Ok(
                        TokenV {
                            kind,
                            lexeme: seq!['"'] + v + seq!['"'],
                            literal: Some(LiteralV::StringLiteral(v)),
                            line: 1,
                        },
                    )
                } else {
                    match double_of_decimal(v) {
                        Some(b) => Ok(
                            TokenV { kind, lexeme: v, literal: Some(LiteralV::Number(b)), line: 1 },
                        ),
                        None => Err(LexErrorV::NumberParsingError { num_str: v, line: 1 }),
                    }
                },
            },
        },
    }
}

impl Token {
    /// The token of the kind named `token_type`, on line 1. An identifier, a string or a
    /// number takes its text from `value`; the other kinds have a fixed text and ignore it.
    pub fn get_token(token_type: &str, value: Option<&str>) -> (r: Result<Token, LexError>)
        ensures
            match named_token(
                token_type@,
                match value {
                    Some(v) => Some(v@),
                    None => None,
                },
            ) {
                Ok(t) => r is Ok && r->Ok_0@ == t,
                Err(e) => r is Err && r->Err_0@ == e,
            },
    {
        let kind = match kind_by_name(token_type) {
            Some(k) => k,
            None => return Err(LexError::NotFound(token_type.to_string())),
        };
        match lexeme_of(kind) {
            Some(text) => {
                return Ok(Token { kind, lexeme: text.to_string(), literal: None, line: 1 });
            },
            None => {},
        }
        let v = match value {
            Some(v) => v,
            None => return Err(LexError::ValueError(token_type.to_string())),
        };
        if kind == TokenKind::Identifier {
            Ok(Token { kind, lexeme: v.to_string(), literal: None, line: 1 })
        } else if kind == TokenKind::StringLiteral {
            let quote = "\"";
            proof {
                reveal_strlit("\"");
            }
            let lexeme = quote.to_string().concat(v).concat(quote);
            assert(quote@ =~= seq!['"']);
            assert(lexeme@ =~= seq!['"'] + v@ + seq!['"']);
            Ok(
                Token {
                    kind,
                    lexeme,
                    literal: Some(Literal::StringLiteral(v.to_string())),
                    line: 1,
                },
            )
        } else {
            assert(kind == TokenKind::Number);
            match parse_double(v) {
                Some(b) => Ok(
                    Token { kind, lexeme: v.to_string(), literal: Some(Literal::Number(b)), line: 1 },
                ),
                None => Err(LexError::NumberParsingError { num_str: v.to_string(), line: 1 }),
            }
        }
    }

    /// The regular expression that the lexemes of the kind named `token_type` match.
    pub fn get_token_regex(token_type: &str) -> (r: Result<String, LexError>)
        ensures
            match kind_named(token_type@) {
                Some(k) => r is Ok && r->Ok_0@ == regex_of(k),
                None => r is Err && r->Err_0@ == LexErrorV::NotFound(token_type@),
            },
    {
        match kind_by_name(token_type) {
            Some(k) => Ok(regex_text(k).to_string()),
            None => Err(LexError::NotFound(token_type.to_string())),
        }
    }
}

} // verus!
