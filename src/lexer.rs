//! The lexing module for the sol language.
//!
//! It holds the token representation, the mathematical model of scanning, and the lexer
//! itself, whose every operation is proved to follow that model.
use vstd::prelude::*;
use vstd::std_specs::iter::IteratorSpec;

pub mod chars;
pub mod scan;
pub mod tokens;

use chars::{
    is_alphabetic, is_alphanumeric, is_numeric, is_whitespace, parse_i32, parsed_i32, push_char,
};
use scan::{
    block_comment_end, char_at, column_at, identifier_end, lemma_block_comment_end,
    lemma_line_comment_end, lemma_position_bounds, lemma_scan, lemma_skip_spaces, line_at, line_comment_end,
    number_end, scan, skip_spaces, token_at, tokens_from, word_token,
};
use tokens::{Token, TokenView};

verus! {

broadcast use {vstd::string::axiom_spec_iter, vstd::string::next_postcondition};

/// The state of a lexer as a mathematical value: the input, the index of the next
/// character to consume, and the line and column of that character.
pub struct LexerView {
    pub input: Seq<char>,
    pub pos: int,
    pub line: int,
    pub column: int,
}

impl LexerView {
    /// The cursor lies within the input, and the line and column are those of the
    /// character at the cursor. The input is shorter than `usize::MAX`, so that both
    /// counters fit.
    pub open spec fn wf(self) -> bool {
        &&& 0 <= self.pos <= self.input.len()
        &&& self.input.len() < usize::MAX
        &&& self.line == line_at(self.input, self.pos)
        &&& self.column == column_at(self.input, self.pos)
    }
}

/// The lexer for the sol language.
///
/// It turns an input string into a sequence of tokens, one per call of `read_token`,
/// moving a single cursor forward over the input's characters.
pub struct Lexer {
    /// The input string separated into chars.
    input: Vec<char>,
    /// The index of the next character to consume.
    pos: usize,
    /// The line of the character at `pos`, counted from 1.
    line: usize,
    /// The column of the character at `pos`, counted from 1.
    column: usize,
}

impl View for Lexer {
    type V = LexerView;

    closed spec fn view(&self) -> LexerView {
        LexerView {
            input: self.input@,
            pos: self.pos as int,
            line: self.line as int,
            column: self.column as int,
        }
    }
}

/// The mathematical value of an optional token.
pub open spec fn token_option_view(r: Option<Token>) -> Option<TokenView> {
    match r {
        Some(t) => Some(t@),
        None => None,
    }
}

/// The token of a word read from the input: a keyword or an identifier.
fn keyword_token(ident: String) -> (r: Token)
    ensures
        r@ == word_token(ident@),
{
    if ident.eq(&String::from_str("decl")) {
        Token::Decl
    } else if ident.eq(&String::from_str("fun")) {
        Token::Fun
    } else if ident.eq(&String::from_str("if")) {
        Token::If
    } else if ident.eq(&String::from_str("else")) {
        Token::Else
    } else if ident.eq(&String::from_str("return")) {
        Token::Return
    } else if ident.eq(&String::from_str("while")) {
        Token::While
    } else if ident.eq(&String::from_str("for")) {
        Token::For
    } else {
        Token::Ident(ident)
    }
}

impl Lexer {
    /// Whether the lexer's state is consistent.
    pub open spec fn wf(&self) -> bool {
        self@.wf()
    }

    /// Create a new lexer over the whole input, with its cursor on the first character.
    pub fn new(input: String) -> (r: Lexer)
        requires
            input@.len() < usize::MAX,
        ensures
            r.wf(),
            r@.input == input@,
            r@.pos == 0,
    {
        let mut chars: Vec<char> = Vec::new();
        let mut it = input.as_str().chars();
        loop
            invariant
                chars@ + it.remaining() == input@,
            ensures
                chars@ == input@,
            decreases input@.len() - chars@.len(),
        {
            match it.next() {
                Some(c) => {
                    chars.push(c);
                    assert(chars@ + it.remaining() =~= input@);
                },
                None => {
                    assert(chars@ =~= input@);
                    break ;
                },
            }
        }
        Lexer { input: chars, pos: 0, line: 1, column: 1 }
    }

    /// The line of the next character to consume, counted from 1.
    pub fn line(&self) -> (r: usize)
        requires
            self.wf(),
        ensures
            r == line_at(self@.input, self@.pos),
    {
        self.line
    }

    /// The column of the next character to consume, counted from 1.
    pub fn column(&self) -> (r: usize)
        requires
            self.wf(),
        ensures
            r == column_at(self@.input, self@.pos),
    {
        self.column
    }

    /// The last character consumed, if any.
    fn current_char(&self) -> (r: Option<char>)
        requires
            self.wf(),
        ensures
            r == char_at(self@.input, self@.pos - 1),
    {
        if self.pos == 0 {
            None
        } else {
            Some(self.input[self.pos - 1])
        }
    }

    /// The next character, without consuming it.
    fn peek_char(&self) -> (r: Option<char>)
        requires
            self.wf(),
        ensures
            r == char_at(self@.input, self@.pos),
    {
        if self.pos < self.input.len() {
            Some(self.input[self.pos])
        } else {
            None
        }
    }

    /// Consume the next character, if any, and return it; the line and column follow it.
    fn next_char(&mut self) -> (r: Option<char>)
        requires
            old(self).wf(),
        ensures
            final(self).wf(),
            final(self)@.input == old(self)@.input,
            r == char_at(old(self)@.input, old(self)@.pos),
            final(self)@.pos == if old(self)@.pos < old(self)@.input.len() {
                old(self)@.pos + 1
            } else {
                old(self)@.pos
            },
    {
        if self.pos >= self.input.len() {
            return None;
        }
        let ch = self.input[self.pos];
        proof {
            lemma_position_bounds(self@.input, self@.pos);
        }
        self.pos = self.pos + 1;
        self.column = self.column + 1;
        if ch == '\n' {
            self.line = self.line + 1;
            self.column = 1;
        }
        Some(ch)
    }

    /// Consume the next character, if any.
    fn consume_char(&mut self)
        requires
            old(self).wf(),
        ensures
            final(self).wf(),
            final(self)@.input == old(self)@.input,
            final(self)@.pos == if old(self)@.pos < old(self)@.input.len() {
                old(self)@.pos + 1
            } else {
                old(self)@.pos
            },
    {
        let _ = self.next_char();
    }

    /// Consume the whitespace at the cursor.
    fn consume_whitespace(&mut self)
        requires
            old(self).wf(),
        ensures
            final(self).wf(),
            final(self)@.input == old(self)@.input,
            final(self)@.pos == skip_spaces(old(self)@.input, old(self)@.pos),
    {
        loop
            invariant
                self.wf(),
                self@.input == old(self)@.input,
                skip_spaces(self@.input, self@.pos) == skip_spaces(
                    old(self)@.input,
                    old(self)@.pos,
                ),
            ensures
                self.wf(),
                self@.input == old(self)@.input,
                self@.pos == skip_spaces(old(self)@.input, old(self)@.pos),
            decreases self@.input.len() - self@.pos,
        {
            match self.peek_char() {
                Some(c) => {
                    if !is_whitespace(c) {
                        break ;
                    }
                    self.consume_char();
                },
                None => break ,
            }
        }
    }

    /// Consume a block comment whose opening star is at the cursor, up to and including
    /// the first `*/` from that star on, or to the end of the input.
    fn consume_block_comment(&mut self)
        requires
            old(self).wf(),
        ensures
            final(self).wf(),
            final(self)@.input == old(self)@.input,
            final(self)@.pos == block_comment_end(old(self)@.input, old(self)@.pos),
    {
        loop
            invariant_except_break
                block_comment_end(self@.input, self@.pos) == block_comment_end(
                    old(self)@.input,
                    old(self)@.pos,
                ),
            invariant
                self.wf(),
                self@.input == old(self)@.input,
            ensures
                self.wf(),
                self@.input == old(self)@.input,
                self@.pos == block_comment_end(old(self)@.input, old(self)@.pos),
            decreases self@.input.len() - self@.pos,
        {
            let ghost start = self@.pos;
            match self.next_char() {
                Some(c) => {
                    if c == '*' {
                        if let Some('/') = self.peek_char() {
                            self.consume_char();
                            break ;
                        }
                    }
                },
                None => break ,
            }
        }
    }

    /// Consume the text of a line comment from the cursor up to and including the next
    /// newline, or to the end of the input.
    fn consume_line_comment(&mut self)
        requires
            old(self).wf(),
        ensures
            final(self).wf(),
            final(self)@.input == old(self)@.input,
            final(self)@.pos == line_comment_end(old(self)@.input, old(self)@.pos),
    {
        loop
            invariant_except_break
                line_comment_end(self@.input, self@.pos) == line_comment_end(
                    old(self)@.input,
                    old(self)@.pos,
                ),
            invariant
                self.wf(),
                self@.input == old(self)@.input,
            ensures
                self.wf(),
                self@.input == old(self)@.input,
                self@.pos == line_comment_end(old(self)@.input, old(self)@.pos),
            decreases self@.input.len() - self@.pos,
        {
            let ghost start = self@.pos;
            match self.next_char() {
                Some(c) => {
                    if c == '\n' {
                        break ;
                    }
                },
                None => break ,
            }
        }
    }

    /// Read the rest of a word whose first character was just consumed.
    fn read_identifier(&mut self) -> (r: String)
        requires
            old(self).wf(),
            old(self)@.pos >= 1,
        ensures
            final(self).wf(),
            final(self)@.input == old(self)@.input,
            final(self)@.pos == identifier_end(old(self)@.input, old(self)@.pos),
            r@ == old(self)@.input.subrange(old(self)@.pos - 1, final(self)@.pos),
    {
        let mut ident = String::new();
        if let Some(first) = self.current_char() {
            push_char(&mut ident, first);
        }
        assert(ident@ =~= self@.input.subrange(self@.pos - 1, self@.pos));
        loop
            invariant
                self.wf(),
                self@.input == old(self)@.input,
                1 <= old(self)@.pos <= self@.pos,
                identifier_end(self@.input, self@.pos) == identifier_end(
                    old(self)@.input,
                    old(self)@.pos,
                ),
                ident@ == self@.input.subrange(old(self)@.pos - 1, self@.pos),
            ensures
                self.wf(),
                self@.input == old(self)@.input,
                self@.pos == identifier_end(old(self)@.input, old(self)@.pos),
                ident@ == self@.input.subrange(old(self)@.pos - 1, self@.pos),
            decreases self@.input.len() - self@.pos,
        {
            let c = match self.peek_char() {
                Some(c) => c,
                None => break ,
            };
            if !is_alphanumeric(c) && c != '_' {
                break ;
            }
            self.consume_char();
            push_char(&mut ident, c);
            assert(ident@ =~= self@.input.subrange(old(self)@.pos - 1, self@.pos));
        }
        ident
    }

    /// Read the rest of a number whose first character was just consumed, and its value
    /// where the digits read as an `i32`.
    fn read_number(&mut self) -> (r: Option<i32>)
        requires
            old(self).wf(),
            old(self)@.pos >= 1,
        ensures
            final(self).wf(),
            final(self)@.input == old(self)@.input,
            final(self)@.pos == number_end(old(self)@.input, old(self)@.pos),
            r == parsed_i32(old(self)@.input.subrange(old(self)@.pos - 1, final(self)@.pos)),
    {
        let mut number = String::new();
        if let Some(first) = self.current_char() {
            push_char(&mut number, first);
        }
        assert(number@ =~= self@.input.subrange(self@.pos - 1, self@.pos));
        loop
            invariant
                self.wf(),
                self@.input == old(self)@.input,
                1 <= old(self)@.pos <= self@.pos,
                number_end(self@.input, self@.pos) == number_end(
                    old(self)@.input,
                    old(self)@.pos,
                ),
                number@ == self@.input.subrange(old(self)@.pos - 1, self@.pos),
            ensures
                self.wf(),
                self@.input == old(self)@.input,
                self@.pos == number_end(old(self)@.input, old(self)@.pos),
                number@ == self@.input.subrange(old(self)@.pos - 1, self@.pos),
            decreases self@.input.len() - self@.pos,
        {
            let c = match self.peek_char() {
                Some(c) => c,
                None => break ,
            };
            if !is_numeric(c) {
                break ;
            }
            self.consume_char();
            push_char(&mut number, c);
            assert(number@ =~= self@.input.subrange(old(self)@.pos - 1, self@.pos));
        }
        parse_i32(number.as_str())
    }

    /// The token that the lead character `lead`, just consumed, begins; the rest of the
    /// token is consumed with it.
    fn read_lead(&mut self, lead: char) -> (r: Token)
        requires
            old(self).wf(),
            old(self)@.pos >= 1,
            lead == old(self)@.input[old(self)@.pos - 1],
        ensures
            final(self).wf(),
            final(self)@.input == old(self)@.input,
            (r@, final(self)@.pos) == token_at(old(self)@.input, old(self)@.pos - 1),
    {
        match lead {
            '=' => match self.peek_char() {
                Some('=') => {
                    self.consume_char();
                    Token::Eq
                },
                _ => Token::Assign,
            },
            '!' => match self.peek_char() {
                Some('=') => {
                    self.consume_char();
                    Token::NotEq
                },
                _ => Token::Bang,
            },
            '<' => match self.peek_char() {
                Some('=') => {
                    self.consume_char();
                    Token::LtEq
                },
                _ => Token::Lt,
            },
            '>' => match self.peek_char() {
                Some('=') => {
                    self.consume_char();
                    Token::GtEq
                },
                _ => Token::Gt,
            },
            '+' => Token::Plus,
            '-' => Token::Minus,
            '*' => Token::Asterisk,
            '/' => Token::Slash,
            ',' => Token::Comma,
            ';' => Token::Semicolon,
            '(' => Token::LParen,
            ')' => Token::RParen,
            '{' => Token::LBrace,
            '}' => Token::RBrace,
            '[' => Token::LBracket,
            ']' => Token::RBracket,
            _ => {
                if is_alphabetic(lead) {
                    keyword_token(self.read_identifier())
                } else if is_numeric(lead) {
                    match self.read_number() {
                        Some(n) => Token::Integer(n),
                        None => Token::Invalid,
                    }
                } else {
                    Token::Invalid
                }
            },
        }
    }

    /// Return the next token of the input, or `None` once the input is exhausted.
    ///
    /// Whitespace and comments before the token are consumed and produce no token. Input
    /// that forms no token yields `Token::Invalid`, one per unrecognized character. After
    /// the end of the input every call returns `None`.
    pub fn read_token(&mut self) -> (r: Option<Token>)
        requires
            old(self).wf(),
        ensures
            final(self).wf(),
            final(self)@.input == old(self)@.input,
            (token_option_view(r), final(self)@.pos) == scan(old(self)@.input, old(self)@.pos),
    {
        loop
            invariant
                self.wf(),
                self@.input == old(self)@.input,
                scan(self@.input, self@.pos) == scan(old(self)@.input, old(self)@.pos),
            decreases self@.input.len() - self@.pos,
        {
            let ghost start = self@.pos;
            proof {
                lemma_skip_spaces(self@.input, start);
            }
            self.consume_whitespace();
            let lead = match self.next_char() {
                Some(c) => c,
                None => return None,
            };
            if lead == '/' {
                match self.peek_char() {
                    Some('*') => {
                        proof {
                            lemma_block_comment_end(self@.input, self@.pos);
                        }
                        self.consume_block_comment();
                        continue ;
                    },
                    Some('/') => {
                        self.consume_char();
                        proof {
                            lemma_line_comment_end(self@.input, self@.pos);
                        }
                        self.consume_line_comment();
                        continue ;
                    },
                    _ => {},
                }
            }
            return Some(self.read_lead(lead));
        }
    }

    /// Read every remaining token, in order, until the end of the input.
    pub fn collect_tokens(&mut self) -> (r: Vec<Token>)
        requires
            old(self).wf(),
        ensures
            final(self).wf(),
            final(self)@.input == old(self)@.input,
            final(self)@.pos == final(self)@.input.len(),
            r@.map_values(|t: Token| t@) == tokens_from(old(self)@.input, old(self)@.pos),
    {
        let mut tokens: Vec<Token> = Vec::new();
        loop
            invariant
                self.wf(),
                self@.input == old(self)@.input,
                tokens@.map_values(|t: Token| t@) + tokens_from(self@.input, self@.pos)
                    == tokens_from(old(self)@.input, old(self)@.pos),
            ensures
                self.wf(),
                self@.input == old(self)@.input,
                self@.pos == self@.input.len(),
                tokens@.map_values(|t: Token| t@) == tokens_from(
                    old(self)@.input,
                    old(self)@.pos,
                ),
            decreases self@.input.len() - self@.pos,
        {
            let ghost before = self@.pos;
            proof {
                lemma_scan(self@.input, before);
            }
            match self.read_token() {
                Some(t) => {
                    let ghost prior = tokens@.map_values(|t: Token| t@);
                    tokens.push(t);
                    assert(tokens@.map_values(|t: Token| t@) =~= prior.push(t@));
                    assert(prior.push(t@) + tokens_from(self@.input, self@.pos) =~= prior + (seq![
                        t@,
                    ] + tokens_from(self@.input, self@.pos)));
                },
                None => {
                    assert(tokens@.map_values(|t: Token| t@) =~= tokens@.map_values(
                        |t: Token| t@,
                    ) + tokens_from(self@.input, before));
                    break ;
                },
            }
        }
        tokens
    }
}

/// Scanning depends on the text alone: two lexers over the same text, each on its first
/// character, yield the same token sequence.
pub proof fn lemma_rescan_identical(first: Lexer, second: Lexer)
    requires
        first@.input == second@.input,
        first@.pos == 0,
        second@.pos == 0,
    ensures
        tokens_from(first@.input, first@.pos) == tokens_from(second@.input, second@.pos),
{
}

} // verus!
