//! The tokens of the sol language, their mathematical view, and their display form.
use vstd::prelude::*;

verus! {

/// The token representation of the sol language.
///
/// Any string of sol source code decomposes into a list of these tokens.
#[derive(PartialEq, Eq, Debug)]
pub enum Token {
    /// Invalid input: a character that belongs to no token, or a run of digits that
    /// does not fit a signed 32-bit integer.
    Invalid,
    /// Identifier, with its exact source text.
    Ident(String),
    /// Integer literal.
    Integer(i32),
    /// Assign operator (`=`).
    Assign,
    /// Plus operator (`+`).
    Plus,
    /// Minus operator (`-`).
    Minus,
    /// Negation operator (`!`).
    Bang,
    /// Multiplication operator (`*`).
    Asterisk,
    /// Division operator (`/`).
    Slash,
    /// Less than operator (`<`).
    Lt,
    /// Less than or equal operator (`<=`).
    LtEq,
    /// Greater than operator (`>`).
    Gt,
    /// Greater than or equal operator (`>=`).
    GtEq,
    /// Equal operator (`==`).
    Eq,
    /// Not equal operator (`!=`).
    NotEq,
    /// Comma delimiter (`,`).
    Comma,
    /// Semicolon delimiter (`;`).
    Semicolon,
    /// Left parenthesis (`(`).
    LParen,
    /// Right parenthesis (`)`).
    RParen,
    /// Left brace (`{`).
    LBrace,
    /// Right brace (`}`).
    RBrace,
    /// Left square bracket (`[`).
    LBracket,
    /// Right square bracket (`]`).
    RBracket,
    /// `decl` keyword.
    Decl,
    /// `while` keyword.
    While,
    /// `for` keyword.
    For,
    /// `if` keyword.
    If,
    /// `else` keyword.
    Else,
    /// `return` keyword.
    Return,
    /// `fun` keyword.
    Fun,
}

/// The mathematical value of a token: an identifier carries its characters.
pub enum TokenView {
    Invalid,
    Ident(Seq<char>),
    Integer(i32),
    Assign,
    Plus,
    Minus,
    Bang,
    Asterisk,
    Slash,
    Lt,
    LtEq,
    Gt,
    GtEq,
    Eq,
    NotEq,
    Comma,
    Semicolon,
    LParen,
    RParen,
    LBrace,
    RBrace,
    LBracket,
    RBracket,
    Decl,
    While,
    For,
    If,
    Else,
    Return,
    Fun,
}

impl View for Token {
    type V = TokenView;

    open spec fn view(&self) -> TokenView {
        match self {
            Token::Invalid => TokenView::Invalid,
            Token::Ident(name) => TokenView::Ident(name@),
            Token::Integer(i) => TokenView::Integer(*i),
            Token::Assign => TokenView::Assign,
            Token::Plus => TokenView::Plus,
            Token::Minus => TokenView::Minus,
            Token::Bang => TokenView::Bang,
            Token::Asterisk => TokenView::Asterisk,
            Token::Slash => TokenView::Slash,
            Token::Lt => TokenView::Lt,
            Token::LtEq => TokenView::LtEq,
            Token::Gt => TokenView::Gt,
            Token::GtEq => TokenView::GtEq,
            Token::Eq => TokenView::Eq,
            Token::NotEq => TokenView::NotEq,
            Token::Comma => TokenView::Comma,
            Token::Semicolon => TokenView::Semicolon,
            Token::LParen => TokenView::LParen,
            Token::RParen => TokenView::RParen,
            Token::LBrace => TokenView::LBrace,
            Token::RBrace => TokenView::RBrace,
            Token::LBracket => TokenView::LBracket,
            Token::RBracket => TokenView::RBracket,
            Token::Decl => TokenView::Decl,
            Token::While => TokenView::While,
            Token::For => TokenView::For,
            Token::If => TokenView::If,
            Token::Else => TokenView::Else,
            Token::Return => TokenView::Return,
            Token::Fun => TokenView::Fun,
        }
    }
}

/// The character for a decimal digit value `0..=9`.
pub open spec fn digit_char(d: int) -> char {
    seq!['0', '1', '2', '3', '4', '5', '6', '7', '8', '9'][d]
}

/// The decimal digits of a natural number, most significant first, without leading zeros.
pub open spec fn natural_text(n: nat) -> Seq<char>
    decreases n,
{
    if n < 10 {
        seq![digit_char(n as int)]
    } else {
        natural_text(n / 10).push(digit_char((n % 10) as int))
    }
}

/// The decimal form of an integer, with a leading `-` when it is negative.
pub open spec fn integer_text(v: int) -> Seq<char> {
    if v < 0 {
        seq!['-'] + natural_text((-v) as nat)
    } else {
        natural_text(v as nat)
    }
}

/// The display form of a token: operators and delimiters as their symbol, keywords as
/// their spelling, an identifier as its text, an integer in decimal, and a fixed label
/// for invalid input.
pub open spec fn token_text(t: TokenView) -> Seq<char> {
    match t {
        TokenView::Invalid => "Invalid"@,
        TokenView::Ident(name) => name,
        TokenView::Integer(i) => integer_text(i as int),
        TokenView::Assign => "="@,
        TokenView::Plus => "+"@,
        TokenView::Minus => "-"@,
        TokenView::Bang => "!"@,
        TokenView::Asterisk => "*"@,
        TokenView::Slash => "/"@,
        TokenView::Lt => "<"@,
        TokenView::LtEq => "<="@,
        TokenView::Gt => ">"@,
        TokenView::GtEq => ">="@,
        TokenView::Eq => "=="@,
        TokenView::NotEq => "!="@,
        TokenView::Comma => ","@,
        TokenView::Semicolon => ";"@,
        TokenView::LParen => "("@,
        TokenView::RParen => ")"@,
        TokenView::LBrace => "{"@,
        TokenView::RBrace => "}"@,
        TokenView::LBracket => "["@,
        TokenView::RBracket => "]"@,
        TokenView::Decl => "decl"@,
        TokenView::While => "while"@,
        TokenView::For => "for"@,
        TokenView::If => "if"@,
        TokenView::Else => "else"@,
        TokenView::Return => "return"@,
        TokenView::Fun => "fun"@,
    }
}

/// Relies on `ToString` for `i32` (through its `Display`): the decimal digits, with a
/// leading `-` for a negative value.
#[verifier::external_body]
fn decimal_string(v: i32) -> (r: String)
    ensures
        r@ == integer_text(v as int),
{
    v.to_string()
}

impl Token {
    /// The display form of the token.
    pub fn text(&self) -> (r: String)
        ensures
            r@ == token_text(self@),
    {
        match self {
            Token::Invalid => String::from_str("Invalid"),
            Token::Ident(name) => name.clone(),
            Token::Integer(i) => decimal_string(*i),
            Token::Assign => String::from_str("="),
            Token::Plus => String::from_str("+"),
            Token::Minus => String::from_str("-"),
            Token::Bang => String::from_str("!"),
            Token::Asterisk => String::from_str("*"),
            Token::Slash => String::from_str("/"),
            Token::Lt => String::from_str("<"),
            Token::LtEq => String::from_str("<="),
            Token::Gt => String::from_str(">"),
            Token::GtEq => String::from_str(">="),
            Token::Eq => String::from_str("=="),
            Token::NotEq => String::from_str("!="),
            Token::Comma => String::from_str(","),
            Token::Semicolon => String::from_str(";"),
            Token::LParen => String::from_str("("),
            Token::RParen => String::from_str(")"),
            Token::LBrace => String::from_str("{"),
            Token::RBrace => String::from_str("}"),
            Token::LBracket => String::from_str("["),
            Token::RBracket => String::from_str("]"),
            Token::Decl => String::from_str("decl"),
            Token::While => String::from_str("while"),
            Token::For => String::from_str("for"),
            Token::If => String::from_str("if"),
            Token::Else => String::from_str("else"),
            Token::Return => String::from_str("return"),
            Token::Fun => String::from_str("fun"),
        }
    }
}

} // verus!
