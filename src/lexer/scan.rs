//! The mathematical model of scanning: where whitespace, comments and words end, which
//! token starts at a position, and the whole token sequence of a text.
use vstd::prelude::*;

use super::chars::{alphabetic, continues_identifier, is_space, numeric, parsed_i32};
use super::tokens::TokenView;

verus! {

/// The character at index `i`, if the text has one there.
pub open spec fn char_at(s: Seq<char>, i: int) -> Option<char> {
    if 0 <= i < s.len() {
        Some(s[i])
    } else {
        None
    }
}

/// The first index at or after `i` that holds no whitespace, or the end of the text.
pub open spec fn skip_spaces(s: Seq<char>, i: int) -> int
    decreases s.len() - i,
{
    if 0 <= i < s.len() && is_space(s[i]) {
        skip_spaces(s, i + 1)
    } else {
        i
    }
}

/// The index just past the first `*/` whose star stands at or after `i`, or the end of the
/// text when there is none: an unterminated block comment runs to the end of the input.
///
/// A block comment is searched from its opening star, so the star of `/*` may also close it.
pub open spec fn block_comment_end(s: Seq<char>, i: int) -> int
    decreases s.len() - i,
{
    if i + 1 >= s.len() {
        s.len() as int
    } else if s[i] == '*' && s[i + 1] == '/' {
        i + 2
    } else {
        block_comment_end(s, i + 1)
    }
}

/// The index just past the first newline at or after `i`, or the end of the text.
pub open spec fn line_comment_end(s: Seq<char>, i: int) -> int
    decreases s.len() - i,
{
    if i >= s.len() {
        s.len() as int
    } else if s[i] == '\n' {
        i + 1
    } else {
        line_comment_end(s, i + 1)
    }
}

/// Whether a block comment (`/*`) opens at index `j`.
pub open spec fn opens_block_comment(s: Seq<char>, j: int) -> bool {
    0 <= j && j + 1 < s.len() && s[j] == '/' && s[j + 1] == '*'
}

/// Whether a line comment (`//`) opens at index `j`.
pub open spec fn opens_line_comment(s: Seq<char>, j: int) -> bool {
    0 <= j && j + 1 < s.len() && s[j] == '/' && s[j + 1] == '/'
}

/// The index at which the next token starts, from `i` on: whitespace and comments are
/// passed over. It is the end of the text when only those remain.
pub open spec fn skip_trivia(s: Seq<char>, i: int) -> int
    decreases s.len() - i,
    via skip_trivia_decreases
{
    let j = skip_spaces(s, i);
    if opens_block_comment(s, j) {
        skip_trivia(s, block_comment_end(s, j + 1))
    } else if opens_line_comment(s, j) {
        skip_trivia(s, line_comment_end(s, j + 2))
    } else {
        j
    }
}

#[via_fn]
proof fn skip_trivia_decreases(s: Seq<char>, i: int) {
    if 0 <= i <= s.len() {
        let j = skip_spaces(s, i);
        lemma_skip_spaces(s, i);
        if opens_block_comment(s, j) {
            lemma_block_comment_end(s, j + 1);
        } else if opens_line_comment(s, j) {
            lemma_line_comment_end(s, j + 2);
        }
    }
}

/// The first index at or after `i` that cannot continue an identifier, or the end.
pub open spec fn identifier_end(s: Seq<char>, i: int) -> int
    decreases s.len() - i,
{
    if 0 <= i < s.len() && continues_identifier(s[i]) {
        identifier_end(s, i + 1)
    } else {
        i
    }
}

/// The first index at or after `i` that holds no numeric character, or the end.
pub open spec fn number_end(s: Seq<char>, i: int) -> int
    decreases s.len() - i,
{
    if 0 <= i < s.len() && numeric(s[i]) {
        number_end(s, i + 1)
    } else {
        i
    }
}

/// The keyword that a word spells, if any.
pub open spec fn keyword(w: Seq<char>) -> Option<TokenView> {
    if w == "decl"@ {
        Some(TokenView::Decl)
    } else if w == "fun"@ {
        Some(TokenView::Fun)
    } else if w == "if"@ {
        Some(TokenView::If)
    } else if w == "else"@ {
        Some(TokenView::Else)
    } else if w == "return"@ {
        Some(TokenView::Return)
    } else if w == "while"@ {
        Some(TokenView::While)
    } else if w == "for"@ {
        Some(TokenView::For)
    } else {
        None
    }
}

/// The token of a word: its keyword where it spells one, else an identifier.
pub open spec fn word_token(w: Seq<char>) -> TokenView {
    match keyword(w) {
        Some(k) => k,
        None => TokenView::Ident(w),
    }
}

/// The token of a run of numeric characters: its value where it reads as an `i32`,
/// else the invalid token.
pub open spec fn number_token(d: Seq<char>) -> TokenView {
    match parsed_i32(d) {
        Some(v) => TokenView::Integer(v),
        None => TokenView::Invalid,
    }
}

/// The operator or delimiter that a lead character `c` starts, given the character after
/// it, with the number of characters it spans; `None` where `c` starts none.
pub open spec fn operator_token(c: char, next: Option<char>) -> Option<(TokenView, int)> {
    let eq_next = next == Some('=');
    if c == '=' {
        Some(if eq_next { (TokenView::Eq, 2) } else { (TokenView::Assign, 1) })
    } else if c == '!' {
        Some(if eq_next { (TokenView::NotEq, 2) } else { (TokenView::Bang, 1) })
    } else if c == '<' {
        Some(if eq_next { (TokenView::LtEq, 2) } else { (TokenView::Lt, 1) })
    } else if c == '>' {
        Some(if eq_next { (TokenView::GtEq, 2) } else { (TokenView::Gt, 1) })
    } else if c == '+' {
        Some((TokenView::Plus, 1))
    } else if c == '-' {
        Some((TokenView::Minus, 1))
    } else if c == '*' {
        Some((TokenView::Asterisk, 1))
    } else if c == '/' {
        Some((TokenView::Slash, 1))
    } else if c == ',' {
        Some((TokenView::Comma, 1))
    } else if c == ';' {
        Some((TokenView::Semicolon, 1))
    } else if c == '(' {
        Some((TokenView::LParen, 1))
    } else if c == ')' {
        Some((TokenView::RParen, 1))
    } else if c == '{' {
        Some((TokenView::LBrace, 1))
    } else if c == '}' {
        Some((TokenView::RBrace, 1))
    } else if c == '[' {
        Some((TokenView::LBracket, 1))
    } else if c == ']' {
        Some((TokenView::RBracket, 1))
    } else {
        None
    }
}

/// The token that starts at index `j`, where a token starts, with the index just past it.
pub open spec fn token_at(s: Seq<char>, j: int) -> (TokenView, int) {
    let c = s[j];
    match operator_token(c, char_at(s, j + 1)) {
        Some((t, n)) => (t, j + n),
        None => if alphabetic(c) {
            let e = identifier_end(s, j + 1);
            (word_token(s.subrange(j, e)), e)
        } else if numeric(c) {
            let e = number_end(s, j + 1);
            (number_token(s.subrange(j, e)), e)
        } else {
            (TokenView::Invalid, j + 1)
        },
    }
}

/// One step of scanning from index `i`: the next token, or `None` at the end of input,
/// with the index at which scanning goes on.
pub open spec fn scan(s: Seq<char>, i: int) -> (Option<TokenView>, int) {
    let j = skip_trivia(s, i);
    if j >= s.len() {
        (None, s.len() as int)
    } else {
        let (t, k) = token_at(s, j);
        (Some(t), k)
    }
}

/// The tokens of the text from index `i` to its end, in order.
pub open spec fn tokens_from(s: Seq<char>, i: int) -> Seq<TokenView>
    decreases s.len() - i,
    via tokens_from_decreases
{
    if 0 <= i <= s.len() {
        match scan(s, i) {
            (Some(t), k) => seq![t] + tokens_from(s, k),
            (None, _) => Seq::empty(),
        }
    } else {
        Seq::empty()
    }
}

#[via_fn]
proof fn tokens_from_decreases(s: Seq<char>, i: int) {
    if 0 <= i <= s.len() {
        lemma_scan(s, i);
    }
}

/// The tokens of a whole text.
pub open spec fn tokens_of(s: Seq<char>) -> Seq<TokenView> {
    tokens_from(s, 0)
}

/// The line of the character at index `i`, counted from 1.
pub open spec fn line_at(s: Seq<char>, i: int) -> int
    decreases i,
{
    if i <= 0 {
        1
    } else if s[i - 1] == '\n' {
        line_at(s, i - 1) + 1
    } else {
        line_at(s, i - 1)
    }
}

/// The column of the character at index `i`, counted from 1.
pub open spec fn column_at(s: Seq<char>, i: int) -> int
    decreases i,
{
    if i <= 0 {
        1
    } else if s[i - 1] == '\n' {
        1
    } else {
        column_at(s, i - 1) + 1
    }
}

/// Whitespace skipping stays within the text and stops at the first non-whitespace character.
pub(crate) proof fn lemma_skip_spaces(s: Seq<char>, i: int)
    requires
        0 <= i <= s.len(),
    ensures
        i <= skip_spaces(s, i) <= s.len(),
        forall|m: int| i <= m < skip_spaces(s, i) ==> is_space(#[trigger] s[m]),
        skip_spaces(s, i) < s.len() ==> !is_space(s[skip_spaces(s, i)]),
    decreases s.len() - i,
{
    if i < s.len() && is_space(s[i]) {
        lemma_skip_spaces(s, i + 1);
    }
}

/// A block comment that starts inside the text ends after its start and within the text.
pub(crate) proof fn lemma_block_comment_end(s: Seq<char>, i: int)
    requires
        0 <= i < s.len(),
    ensures
        i < block_comment_end(s, i) <= s.len(),
    decreases s.len() - i,
{
    if i + 1 < s.len() && !(s[i] == '*' && s[i + 1] == '/') {
        lemma_block_comment_end(s, i + 1);
    }
}

/// A line comment ends within the text, after its start where it starts inside the text.
pub(crate) proof fn lemma_line_comment_end(s: Seq<char>, i: int)
    requires
        0 <= i <= s.len(),
    ensures
        i <= line_comment_end(s, i) <= s.len(),
        i < s.len() ==> i < line_comment_end(s, i),
    decreases s.len() - i,
{
    if i < s.len() && s[i] != '\n' {
        lemma_line_comment_end(s, i + 1);
    }
}

/// The next token starts within the text, on a character that is no whitespace and opens no comment.
proof fn lemma_skip_trivia(s: Seq<char>, i: int)
    requires
        0 <= i <= s.len(),
    ensures
        i <= skip_trivia(s, i) <= s.len(),
        skip_trivia(s, i) < s.len() ==> {
            let j = skip_trivia(s, i);
            &&& !is_space(s[j])
            &&& !opens_block_comment(s, j)
            &&& !opens_line_comment(s, j)
        },
    decreases s.len() - i,
{
    let j = skip_spaces(s, i);
    lemma_skip_spaces(s, i);
    if opens_block_comment(s, j) {
        lemma_block_comment_end(s, j + 1);
        lemma_skip_trivia(s, block_comment_end(s, j + 1));
    } else if opens_line_comment(s, j) {
        lemma_line_comment_end(s, j + 2);
        lemma_skip_trivia(s, line_comment_end(s, j + 2));
    }
}

/// A word ends within the text, at or after where it is looked for.
proof fn lemma_identifier_end(s: Seq<char>, i: int)
    requires
        0 <= i <= s.len(),
    ensures
        i <= identifier_end(s, i) <= s.len(),
    decreases s.len() - i,
{
    if i < s.len() && continues_identifier(s[i]) {
        lemma_identifier_end(s, i + 1);
    }
}

/// A run of numeric characters ends within the text, at or after where it is looked for.
proof fn lemma_number_end(s: Seq<char>, i: int)
    requires
        0 <= i <= s.len(),
    ensures
        i <= number_end(s, i) <= s.len(),
    decreases s.len() - i,
{
    if i < s.len() && numeric(s[i]) {
        lemma_number_end(s, i + 1);
    }
}

/// A token spans at least one character and ends within the text.
proof fn lemma_token_at(s: Seq<char>, j: int)
    requires
        0 <= j < s.len(),
    ensures
        j < token_at(s, j).1 <= s.len(),
{
    lemma_identifier_end(s, j + 1);
    lemma_number_end(s, j + 1);
}

/// One scanning step moves forward within the text, and reaches its end when it yields no token.
pub(crate) proof fn lemma_scan(s: Seq<char>, i: int)
    requires
        0 <= i <= s.len(),
    ensures
        scan(s, i).0 is None ==> scan(s, i).1 == s.len(),
        scan(s, i).0 is Some ==> i < scan(s, i).1 <= s.len(),
{
    lemma_skip_trivia(s, i);
    let j = skip_trivia(s, i);
    if j < s.len() {
        lemma_token_at(s, j);
    }
}

/// The line and column at index `i` lie between 1 and `i + 1`.
pub(crate) proof fn lemma_position_bounds(s: Seq<char>, i: int)
    requires
        0 <= i <= s.len(),
    ensures
        1 <= line_at(s, i) <= i + 1,
        1 <= column_at(s, i) <= i + 1,
    decreases i,
{
    if i > 0 {
        lemma_position_bounds(s, i - 1);
    }
}

/// Scanning terminates and always moves forward. A step that yields a token consumes at
/// least one character and none past the end; the end of input is signalled only once
/// every character has been consumed. So the text from `i` on has at most one token per
/// character.
pub proof fn lemma_scan_consumes_input(s: Seq<char>, i: int)
    requires
        0 <= i <= s.len(),
    ensures
        scan(s, i).0 is None ==> scan(s, i).1 == s.len(),
        scan(s, i).0 is Some ==> i < scan(s, i).1 <= s.len(),
        tokens_from(s, i).len() <= s.len() - i,
    decreases s.len() - i,
{
    lemma_scan(s, i);
    if let (Some(_), k) = scan(s, i) {
        lemma_scan_consumes_input(s, k);
    }
}

proof fn lemma_line_comment_end_at(s: Seq<char>, j: int, k: int)
    requires
        0 <= j <= k < s.len(),
        s[k] == '\n',
        forall|m: int| j <= m < k ==> s[m] != '\n',
    ensures
        line_comment_end(s, j) == k + 1,
    decreases k - j,
{
    if j < k {
        lemma_line_comment_end_at(s, j + 1, k);
    }
}

proof fn lemma_block_comment_end_at(s: Seq<char>, j: int, k: int)
    requires
        0 <= j <= k,
        k + 1 < s.len(),
        s[k] == '*' && s[k + 1] == '/',
        forall|m: int| j <= m < k ==> !(s[m] == '*' && #[trigger] s[m + 1] == '/'),
    ensures
        block_comment_end(s, j) == k + 2,
    decreases k - j,
{
    if j < k {
        lemma_block_comment_end_at(s, j + 1, k);
    }
}

/// The end of input is a terminal state: scanning from the end yields no token and stays
/// at the end.
pub proof fn lemma_end_of_input_persists(s: Seq<char>)
    ensures
        scan(s, s.len() as int) == (None::<TokenView>, s.len() as int),
{
}

/// A line comment hides nothing past its newline: scanning from the comment's first slash
/// goes on exactly as scanning from the start of the next line.
pub proof fn lemma_line_comment_skipped(s: Seq<char>, i: int, k: int)
    requires
        0 <= i,
        i + 1 < k < s.len(),
        s[i] == '/' && s[i + 1] == '/',
        s[k] == '\n',
        forall|m: int| i + 2 <= m < k ==> s[m] != '\n',
    ensures
        scan(s, i) == scan(s, k + 1),
        tokens_from(s, i) == tokens_from(s, k + 1),
{
    lemma_line_comment_end_at(s, i + 2, k);
    assert(skip_spaces(s, i) == i);
    assert(skip_trivia(s, i) == skip_trivia(s, k + 1));
}

/// A block comment produces no token: scanning from its opening slash goes on exactly as
/// scanning from just past the first `*/` after its opening slash.
pub proof fn lemma_block_comment_skipped(s: Seq<char>, i: int, k: int)
    requires
        0 <= i,
        i + 1 <= k,
        k + 1 < s.len(),
        s[i] == '/' && s[i + 1] == '*',
        s[k] == '*' && s[k + 1] == '/',
        forall|m: int| i + 1 <= m < k ==> !(s[m] == '*' && #[trigger] s[m + 1] == '/'),
    ensures
        scan(s, i) == scan(s, k + 2),
        tokens_from(s, i) == tokens_from(s, k + 2),
{
    lemma_block_comment_end_at(s, i + 1, k);
    assert(skip_spaces(s, i) == i);
    assert(skip_trivia(s, i) == skip_trivia(s, k + 2));
}

/// `==`, `!=`, `<=` and `>=` are never split: where a token starts with one of them, it
/// scans as one token spanning both characters.
pub proof fn lemma_two_char_operators(s: Seq<char>, i: int)
    requires
        0 <= i,
        i + 1 < s.len(),
        s[i] == '=' || s[i] == '!' || s[i] == '<' || s[i] == '>',
        s[i + 1] == '=',
    ensures
        s[i] == '=' ==> scan(s, i) == (Some(TokenView::Eq), i + 2),
        s[i] == '!' ==> scan(s, i) == (Some(TokenView::NotEq), i + 2),
        s[i] == '<' ==> scan(s, i) == (Some(TokenView::LtEq), i + 2),
        s[i] == '>' ==> scan(s, i) == (Some(TokenView::GtEq), i + 2),
{
    assert(skip_spaces(s, i) == i);
    assert(skip_trivia(s, i) == i);
}

/// `=`, `!`, `<` and `>` not followed by `=` scan as their one-character tokens.
pub proof fn lemma_one_char_comparisons(s: Seq<char>, i: int)
    requires
        0 <= i < s.len(),
        s[i] == '=' || s[i] == '!' || s[i] == '<' || s[i] == '>',
        !(i + 1 < s.len() && s[i + 1] == '='),
    ensures
        s[i] == '=' ==> scan(s, i) == (Some(TokenView::Assign), i + 1),
        s[i] == '!' ==> scan(s, i) == (Some(TokenView::Bang), i + 1),
        s[i] == '<' ==> scan(s, i) == (Some(TokenView::Lt), i + 1),
        s[i] == '>' ==> scan(s, i) == (Some(TokenView::Gt), i + 1),
{
    assert(skip_spaces(s, i) == i);
    assert(skip_trivia(s, i) == i);
}

/// A word that spells a keyword always scans as that keyword, never as an identifier.
pub proof fn lemma_keywords_reserved(s: Seq<char>, i: int)
    requires
        0 <= i < s.len(),
        alphabetic(s[i]),
        keyword(s.subrange(i, identifier_end(s, i + 1))) is Some,
    ensures
        scan(s, i) == (keyword(s.subrange(i, identifier_end(s, i + 1))), identifier_end(s, i + 1)),
        !(scan(s, i).0->0 is Ident),
{
    let e = identifier_end(s, i + 1);
    let w = s.subrange(i, e);
    lemma_identifier_end(s, i + 1);
    reveal_strlit("decl");
    reveal_strlit("fun");
    reveal_strlit("if");
    reveal_strlit("else");
    reveal_strlit("return");
    reveal_strlit("while");
    reveal_strlit("for");
    assert(w[0] == s[i]);
    assert(s[i] == 'd' || s[i] == 'f' || s[i] == 'i' || s[i] == 'e' || s[i] == 'r' || s[i] == 'w');
    assert(skip_spaces(s, i) == i);
    assert(skip_trivia(s, i) == i);
}

/// A character that is no whitespace, starts no operator or delimiter, and is neither
/// alphabetic nor numeric scans as one invalid token made of exactly that character.
pub proof fn lemma_unrecognized_char(s: Seq<char>, i: int)
    requires
        0 <= i < s.len(),
        !is_space(s[i]),
        operator_token(s[i], char_at(s, i + 1)) is None,
        !alphabetic(s[i]),
        !numeric(s[i]),
    ensures
        scan(s, i) == (Some(TokenView::Invalid), i + 1),
{
    assert(skip_spaces(s, i) == i);
    assert(skip_trivia(s, i) == i);
}

} // verus!
