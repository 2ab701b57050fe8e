//! The scanner: it cuts the source text into tokens.
use vstd::prelude::*;
use vstd::string::{StrSliceExecFns, StringExecFns};
use crate::token::{Token, TokenType, TokenView, duplicate_tokens, token_views};

verus! {

/// What the scanner found wrong.
#[derive(Debug, Clone, Copy, PartialEq, Eq, Structural)]
pub enum LexErrorKind {
    /// A character that starts no token.
    UnexpectedCharacter,
    /// A string without its closing quote.
    UnterminatedString,
}

/// A lexical error, with the line it was found on. Lines are counted from 0.
#[derive(Debug, Clone, Copy, PartialEq, Eq, Structural)]
pub struct LexError {
    pub kind: LexErrorKind,
    pub line: u32,
}

/// One of the ten digits.
pub open spec fn is_digit(c: char) -> bool {
    '0' <= c && c <= '9'
}

/// A letter of the Latin alphabet, small or capital.
pub open spec fn is_alphabetic(c: char) -> bool {
    ('a' <= c && c <= 'z') || ('A' <= c && c <= 'Z')
}

/// A character that may stand inside a name.
pub open spec fn is_word(c: char) -> bool {
    is_alphabetic(c) || is_digit(c) || c == '_'
}

/// One of the three characters that open and close a string.
pub open spec fn is_quote(c: char) -> bool {
    c == '"' || c == '\'' || c == '`'
}

/// The line behind `line`. The count stops at the largest number.
pub open spec fn next_line(line: u32) -> u32 {
    if line < u32::MAX {
        (line + 1) as u32
    } else {
        line
    }
}

/// The first place from `pos` on that holds no digit.
pub open spec fn digits_end(cs: Seq<char>, pos: int) -> int
    decreases cs.len() - pos,
{
    if 0 <= pos < cs.len() && is_digit(cs[pos]) {
        digits_end(cs, pos + 1)
    } else {
        pos
    }
}

/// The first place from `pos` on that holds no character of a name.
pub open spec fn word_end(cs: Seq<char>, pos: int) -> int
    decreases cs.len() - pos,
{
    if 0 <= pos < cs.len() && is_word(cs[pos]) {
        word_end(cs, pos + 1)
    } else {
        pos
    }
}

/// The first place from `pos` on that holds a line break, or the end.
pub open spec fn line_end(cs: Seq<char>, pos: int) -> int
    decreases cs.len() - pos,
{
    if 0 <= pos < cs.len() && cs[pos] != '\n' {
        line_end(cs, pos + 1)
    } else {
        pos
    }
}

/// The first place from `pos` on that holds the character `quote`, or the
/// end, together with the line reached there.
pub open spec fn string_end(cs: Seq<char>, pos: int, quote: char, line: u32) -> (int, u32)
    decreases cs.len() - pos,
{
    if 0 <= pos < cs.len() && cs[pos] != quote {
        string_end(
            cs,
            pos + 1,
            quote,
            if cs[pos] == '\n' {
                next_line(line)
            } else {
                line
            },
        )
    } else {
        (pos, line)
    }
}

/// The end of the number that starts at `pos`: digits, and behind them a
/// point with more digits where a digit follows the point.
pub open spec fn number_end(cs: Seq<char>, pos: int) -> int {
    let whole = digits_end(cs, pos);
    if 0 <= whole && whole + 1 < cs.len() && cs[whole] == '.' && is_digit(cs[whole + 1]) {
        digits_end(cs, whole + 2)
    } else {
        whole
    }
}

/// The kind of a word: a keyword, or else an identifier.
pub open spec fn word_kind(word: Seq<char>) -> TokenType {
    if word == "true"@ || word == "false"@ {
        TokenType::Boolean
    } else if word == "nil"@ {
        TokenType::Nil
    } else if word == "print"@ {
        TokenType::Print
    } else if word == "make"@ {
        TokenType::Make
    } else if word == "if"@ {
        TokenType::If
    } else if word == "else"@ {
        TokenType::Else
    } else if word == "and"@ {
        TokenType::And
    } else if word == "or"@ {
        TokenType::Or
    } else if word == "while"@ {
        TokenType::While
    } else if word == "funk"@ {
        TokenType::Funk
    } else if word == "return"@ {
        TokenType::Return
    } else if word == "with"@ {
        TokenType::With
    } else if word == "as"@ {
        TokenType::As
    } else if word == "for"@ {
        TokenType::For
    } else if word == "in"@ {
        TokenType::In
    } else {
        TokenType::Identifier
    }
}

/// The kind of a token of one character, if the character is one.
pub open spec fn single_kind(c: char) -> Option<TokenType> {
    if c == '(' {
        Some(TokenType::LParen)
    } else if c == ')' {
        Some(TokenType::RParen)
    } else if c == '{' {
        Some(TokenType::LBrace)
    } else if c == '}' {
        Some(TokenType::RBrace)
    } else if c == '[' {
        Some(TokenType::LBracket)
    } else if c == ']' {
        Some(TokenType::RBracket)
    } else if c == '-' {
        Some(TokenType::Minus)
    } else if c == '+' {
        Some(TokenType::Plus)
    } else if c == '*' {
        Some(TokenType::Star)
    } else if c == ',' {
        Some(TokenType::Comma)
    } else if c == ';' {
        Some(TokenType::Semicolon)
    } else if c == '.' {
        Some(TokenType::Dot)
    } else if c == ':' {
        Some(TokenType::Colon)
    } else {
        None
    }
}

/// The kinds of the token that starts with `c`, alone and followed by `=`,
/// for the four characters that may be followed so.
pub open spec fn paired_kind(c: char) -> Option<(TokenType, TokenType)> {
    if c == '!' {
        Some((TokenType::Bang, TokenType::BangEqual))
    } else if c == '=' {
        Some((TokenType::Equal, TokenType::EqualEqual))
    } else if c == '<' {
        Some((TokenType::Less, TokenType::LessEqual))
    } else if c == '>' {
        Some((TokenType::Greater, TokenType::GreaterEqual))
    } else {
        None
    }
}

/// The token with the text of `cs` from `from` to `to`.
pub open spec fn cut(cs: Seq<char>, from: int, to: int, token_type: TokenType, line: u32) -> TokenView {
    TokenView { token_type, lexeme: cs.subrange(from, to), line }
}

/// What one step of the scanner does at `pos`.
pub enum Step {
    /// Nothing of a token: go on at the place and line given.
    Skip(int, u32),
    /// A token: go on behind it.
    Emit(TokenView, int, u32),
    /// An error.
    Fail(LexError),
}

/// One step of the scanner, at a place `pos` inside the text.
pub open spec fn step(cs: Seq<char>, pos: int, line: u32) -> Step {
    let c = cs[pos];
    if c == ' ' || c == '\r' || c == '\t' {
        Step::Skip(pos + 1, line)
    } else if c == '\n' {
        Step::Skip(pos + 1, next_line(line))
    } else if single_kind(c) is Some {
        Step::Emit(cut(cs, pos, pos + 1, single_kind(c)->Some_0, line), pos + 1, line)
    } else if paired_kind(c) is Some {
        if pos + 1 < cs.len() && cs[pos + 1] == '=' {
            Step::Emit(cut(cs, pos, pos + 2, paired_kind(c)->Some_0.1, line), pos + 2, line)
        } else {
            Step::Emit(cut(cs, pos, pos + 1, paired_kind(c)->Some_0.0, line), pos + 1, line)
        }
    } else if c == '/' {
        if pos + 1 < cs.len() && cs[pos + 1] == '/' {
            Step::Skip(line_end(cs, pos + 2), line)
        } else {
            Step::Emit(cut(cs, pos, pos + 1, TokenType::Slash, line), pos + 1, line)
        }
    } else if is_quote(c) {
        let (close, reached) = string_end(cs, pos + 1, c, line);
        if close < cs.len() {
            Step::Emit(cut(cs, pos + 1, close, TokenType::String, reached), close + 1, reached)
        } else {
            Step::Fail(LexError { kind: LexErrorKind::UnterminatedString, line: reached })
        }
    } else if is_alphabetic(c) {
        let end = word_end(cs, pos + 1);
        Step::Emit(cut(cs, pos, end, word_kind(cs.subrange(pos, end)), line), end, line)
    } else if is_digit(c) {
        let end = number_end(cs, pos + 1);
        Step::Emit(cut(cs, pos, end, TokenType::Number, line), end, line)
    } else {
        Step::Fail(LexError { kind: LexErrorKind::UnexpectedCharacter, line })
    }
}

/// The tokens of the text from `pos` on, behind those in `done`. The last
/// token is always the end of input.
#[verifier::opaque]
pub open spec fn scan(cs: Seq<char>, pos: int, line: u32, done: Seq<TokenView>) -> Result<
    Seq<TokenView>,
    LexError,
>
    decreases cs.len() - pos,
{
    if !(0 <= pos < cs.len()) {
        Ok(done.push(TokenView { token_type: TokenType::EOF, lexeme: Seq::empty(), line }))
    } else {
        match step(cs, pos, line) {
            Step::Skip(next, reached) => if pos < next <= cs.len() {
                scan(cs, next, reached, done)
            } else {
                Err(LexError { kind: LexErrorKind::UnexpectedCharacter, line })
            },
            Step::Emit(token, next, reached) => if pos < next <= cs.len() {
                scan(cs, next, reached, done.push(token))
            } else {
                Err(LexError { kind: LexErrorKind::UnexpectedCharacter, line })
            },
            Step::Fail(e) => Err(e),
        }
    }
}

/// The tokens of a text.
pub open spec fn tokens_of(text: Seq<char>) -> Result<Seq<TokenView>, LexError> {
    scan(text, 0, 0, Seq::empty())
}

/// A scanner over a source text. `tokens` holds what the last run of
/// [`Lexer::lex`] found.
pub struct Lexer {
    pub input: String,
    pub tokens: Vec<Token>,
}

fn digit(c: char) -> (result: bool)
    ensures
        result == is_digit(c),
{
    c >= '0' && c <= '9'
}

fn alphabetic(c: char) -> (result: bool)
    ensures
        result == is_alphabetic(c),
{
    (c >= 'a' && c <= 'z') || (c >= 'A' && c <= 'Z')
}

fn single(c: char) -> (kind: Option<TokenType>)
    ensures
        kind == single_kind(c),
{
    if c == '(' {
        Some(TokenType::LParen)
    } else if c == ')' {
        Some(TokenType::RParen)
    } else if c == '{' {
        Some(TokenType::LBrace)
    } else if c == '}' {
        Some(TokenType::RBrace)
    } else if c == '[' {
        Some(TokenType::LBracket)
    } else if c == ']' {
        Some(TokenType::RBracket)
    } else if c == '-' {
        Some(TokenType::Minus)
    } else if c == '+' {
        Some(TokenType::Plus)
    } else if c == '*' {
        Some(TokenType::Star)
    } else if c == ',' {
        Some(TokenType::Comma)
    } else if c == ';' {
        Some(TokenType::Semicolon)
    } else if c == '.' {
        Some(TokenType::Dot)
    } else if c == ':' {
        Some(TokenType::Colon)
    } else {
        None
    }
}

fn paired(c: char) -> (kinds: Option<(TokenType, TokenType)>)
    ensures
        kinds == paired_kind(c),
{
    if c == '!' {
        Some((TokenType::Bang, TokenType::BangEqual))
    } else if c == '=' {
        Some((TokenType::Equal, TokenType::EqualEqual))
    } else if c == '<' {
        Some((TokenType::Less, TokenType::LessEqual))
    } else if c == '>' {
        Some((TokenType::Greater, TokenType::GreaterEqual))
    } else {
        None
    }
}

fn word(text: &String) -> (kind: TokenType)
    ensures
        kind == word_kind(text@),
{
    if *text == String::from_str("true") || *text == String::from_str("false") {
        TokenType::Boolean
    } else if *text == String::from_str("nil") {
        TokenType::Nil
    } else if *text == String::from_str("print") {
        TokenType::Print
    } else if *text == String::from_str("make") {
        TokenType::Make
    } else if *text == String::from_str("if") {
        TokenType::If
    } else if *text == String::from_str("else") {
        TokenType::Else
    } else if *text == String::from_str("and") {
        TokenType::And
    } else if *text == String::from_str("or") {
        TokenType::Or
    } else if *text == String::from_str("while") {
        TokenType::While
    } else if *text == String::from_str("funk") {
        TokenType::Funk
    } else if *text == String::from_str("return") {
        TokenType::Return
    } else if *text == String::from_str("with") {
        TokenType::With
    } else if *text == String::from_str("as") {
        TokenType::As
    } else if *text == String::from_str("for") {
        TokenType::For
    } else if *text == String::from_str("in") {
        TokenType::In
    } else {
        TokenType::Identifier
    }
}

/// The characters of a text that holds none beyond ASCII, in time linear in
/// its length.
fn ascii_characters(text: &str) -> (cs: Vec<char>)
    requires
        text.is_ascii(),
    ensures
        cs@ == text@,
{
    let length = text.unicode_len();
    let mut cs: Vec<char> = Vec::new();
    let mut i: usize = 0;
    while i < length
        invariant
            i <= length,
            length == text@.len(),
            text.is_ascii(),
            cs@ == text@.subrange(0, i as int),
        decreases length - i,
    {
        let c = text.get_ascii(i) as char;
        cs.push(c);
        proof {
            assert(c == text@[i as int]);
            assert(cs@ =~= text@.subrange(0, i + 1));
        }
        i = i + 1;
    }
    proof {
        assert(text@.subrange(0, length as int) =~= text@);
    }
    cs
}

/// The characters of a text.
fn characters(text: &str) -> (cs: Vec<char>)
    ensures
        cs@ == text@,
{
    let length = text.unicode_len();
    let mut cs: Vec<char> = Vec::new();
    let mut i: usize = 0;
    while i < length
        invariant
            i <= length,
            length == text@.len(),
            cs@ == text@.subrange(0, i as int),
        decreases length - i,
    {
        cs.push(text.get_char(i));
        proof {
            assert(cs@ =~= text@.subrange(0, i + 1));
        }
        i = i + 1;
    }
    proof {
        assert(text@.subrange(0, length as int) =~= text@);
    }
    cs
}

fn scan_digits(cs: &Vec<char>, from: usize) -> (end: usize)
    requires
        from <= cs@.len(),
    ensures
        end == digits_end(cs@, from as int),
        from <= end <= cs@.len(),
{
    let mut end = from;
    while end < cs.len() && digit(cs[end])
        invariant
            from <= end <= cs@.len(),
            digits_end(cs@, from as int) == digits_end(cs@, end as int),
        decreases cs@.len() - end,
    {
        end = end + 1;
    }
    end
}

fn scan_word(cs: &Vec<char>, from: usize) -> (end: usize)
    requires
        from <= cs@.len(),
    ensures
        end == word_end(cs@, from as int),
        from <= end <= cs@.len(),
{
    let mut end = from;
    while end < cs.len() && (alphabetic(cs[end]) || digit(cs[end]) || cs[end] == '_')
        invariant
            from <= end <= cs@.len(),
            word_end(cs@, from as int) == word_end(cs@, end as int),
        decreases cs@.len() - end,
    {
        end = end + 1;
    }
    end
}

fn scan_line(cs: &Vec<char>, from: usize) -> (end: usize)
    requires
        from <= cs@.len(),
    ensures
        end == line_end(cs@, from as int),
        from <= end <= cs@.len(),
{
    let mut end = from;
    while end < cs.len() && cs[end] != '\n'
        invariant
            from <= end <= cs@.len(),
            line_end(cs@, from as int) == line_end(cs@, end as int),
        decreases cs@.len() - end,
    {
        end = end + 1;
    }
    end
}

fn scan_string(cs: &Vec<char>, from: usize, quote: char, line: u32) -> (found: (usize, u32))
    requires
        from <= cs@.len(),
    ensures
        (found.0 as int, found.1) == string_end(cs@, from as int, quote, line),
        from <= found.0 <= cs@.len(),
{
    let mut end = from;
    let mut reached = line;
    while end < cs.len() && cs[end] != quote
        invariant
            from <= end <= cs@.len(),
            string_end(cs@, from as int, quote, line) == string_end(cs@, end as int, quote, reached),
        decreases cs@.len() - end,
    {
        if cs[end] == '\n' && reached < u32::MAX {
            reached = reached + 1;
        }
        end = end + 1;
    }
    (end, reached)
}

fn scan_number(cs: &Vec<char>, from: usize) -> (end: usize)
    requires
        from <= cs@.len(),
    ensures
        end == number_end(cs@, from as int),
        from <= end <= cs@.len(),
{
    let whole = scan_digits(cs, from);
    if whole < cs.len() && cs.len() - whole > 1 && cs[whole] == '.' && digit(cs[whole + 1]) {
        scan_digits(cs, whole + 2)
    } else {
        whole
    }
}

/// The text of `source` from `from` to `to`. Where `ascii` says that the
/// source holds nothing beyond ASCII, it is found without a search.
fn cut_text(source: &str, ascii: bool, from: usize, to: usize) -> (text: String)
    requires
        from <= to <= source@.len(),
        ascii ==> source.is_ascii(),
    ensures
        text@ == source@.subrange(from as int, to as int),
{
    if ascii {
        String::from_str(source.substring_ascii(from, to))
    } else {
        String::from_str(source.substring_char(from, to))
    }
}

/// The token with the text of `source` from `from` to `to`.
fn cut_token(source: &str, ascii: bool, from: usize, to: usize, token_type: TokenType, line: u32) -> (token:
    Token)
    requires
        from <= to <= source@.len(),
        ascii ==> source.is_ascii(),
    ensures
        token@ == cut(source@, from as int, to as int, token_type, line),
{
    Token::new(token_type, cut_text(source, ascii, from, to), line)
}

impl Lexer {
    /// The text that this scanner reads.
    pub open spec fn text(&self) -> Seq<char> {
        self.input@
    }

    /// A scanner over the given text, with no tokens yet.
    pub fn new(input: String) -> (lexer: Lexer)
        ensures
            lexer.text() == input@,
            lexer.tokens@.len() == 0,
    {
        Lexer { input, tokens: Vec::new() }
    }

    /// Cuts the text into tokens. The result is the tokens in order, the
    /// last being the end of input, or the first lexical error: a character
    /// that starts no token, or a string that is not closed. After a
    /// successful run `tokens` holds the same tokens.
    pub fn lex(&mut self) -> (result: Result<Vec<Token>, LexError>)
        ensures
            final(self).text() == old(self).text(),
            match tokens_of(old(self).text()) {
                Ok(tokens) => result is Ok && token_views(result->Ok_0@) == tokens && token_views(
                    final(self).tokens@,
                ) == tokens,
                Err(e) => result == Err::<Vec<Token>, LexError>(e),
            },
    {
        let source = self.input.as_str();
        let ascii = source.is_ascii();
        let cs = if ascii {
            ascii_characters(source)
        } else {
            characters(source)
        };
        let mut tokens: Vec<Token> = Vec::new();
        proof {
            assert(token_views(tokens@) =~= Seq::<TokenView>::empty());
        }
        let mut position: usize = 0;
        let mut line: u32 = 0;
        while position < cs.len()
            invariant
                cs@ == source@,
                source@ == self.input@,
                ascii ==> source.is_ascii(),
                *self == *old(self),
                position <= cs@.len(),
                tokens_of(cs@) == scan(cs@, position as int, line, token_views(tokens@)),
            decreases cs@.len() - position,
        {
            proof {
                reveal(scan);
            }
            let ghost done = token_views(tokens@);
            let c = cs[position];
            if c == ' ' || c == '\r' || c == '\t' {
                position = position + 1;
            } else if c == '\n' {
                position = position + 1;
                if line < u32::MAX {
                    line = line + 1;
                }
            } else if let Some(kind) = single(c) {
                let token = cut_token(source, ascii, position, position + 1, kind, line);
                tokens.push(token);
                position = position + 1;
                proof {
                    assert(token_views(tokens@) =~= done.push(token@));
                }
            } else if let Some(kinds) = paired(c) {
                let token = if cs.len() - position > 1 && cs[position + 1] == '=' {
                    let token = cut_token(source, ascii, position, position + 2, kinds.1, line);
                    position = position + 2;
                    token
                } else {
                    let token = cut_token(source, ascii, position, position + 1, kinds.0, line);
                    position = position + 1;
                    token
                };
                tokens.push(token);
                proof {
                    assert(token_views(tokens@) =~= done.push(token@));
                }
            } else if c == '/' {
                if cs.len() - position > 1 && cs[position + 1] == '/' {
                    position = scan_line(&cs, position + 2);
                } else {
                    let token = cut_token(source, ascii, position, position + 1, TokenType::Slash, line);
                    tokens.push(token);
                    position = position + 1;
                    proof {
                        assert(token_views(tokens@) =~= done.push(token@));
                    }
                }
            } else if c == '"' || c == '\'' || c == '`' {
                let (close, reached) = scan_string(&cs, position + 1, c, line);
                if close < cs.len() {
                    let token = cut_token(source, ascii, position + 1, close, TokenType::String, reached);
                    tokens.push(token);
                    position = close + 1;
                    line = reached;
                    proof {
                        assert(token_views(tokens@) =~= done.push(token@));
                    }
                } else {
                    return Err(LexError { kind: LexErrorKind::UnterminatedString, line: reached });
                }
            } else if alphabetic(c) {
                let end = scan_word(&cs, position + 1);
                let text = cut_text(source, ascii, position, end);
                let kind = word(&text);
                let token = Token::new(kind, text, line);
                tokens.push(token);
                position = end;
                proof {
                    assert(token_views(tokens@) =~= done.push(token@));
                }
            } else if digit(c) {
                let end = scan_number(&cs, position + 1);
                let token = cut_token(source, ascii, position, end, TokenType::Number, line);
                tokens.push(token);
                position = end;
                proof {
                    assert(token_views(tokens@) =~= done.push(token@));
                }
            } else {
                return Err(LexError { kind: LexErrorKind::UnexpectedCharacter, line });
            }
        }
        proof {
            reveal(scan);
        }
        let ghost done = token_views(tokens@);
        let last = Token::new(TokenType::EOF, String::new(), line);
        tokens.push(last);
        proof {
            assert(token_views(tokens@) =~= done.push(last@));
        }
        let copy = duplicate_tokens(&tokens);
        self.tokens = copy;
        Ok(tokens)
    }
}

} // verus!

verus! {

/// No token but the last is the end of input.
pub open spec fn ends_once(tokens: Seq<TokenView>) -> bool {
    &&& tokens.len() > 0
    &&& tokens.last().token_type == TokenType::EOF
    &&& forall|i: int| 0 <= i < tokens.len() - 1 ==> (#[trigger] tokens[i]).token_type != TokenType::EOF
}

/// A word is no end of input.
proof fn lemma_word_kind(word: Seq<char>)
    ensures
        word_kind(word) != TokenType::EOF,
{
}

/// The tokens that a step emits are no end of input.
proof fn lemma_step_emits_no_end(cs: Seq<char>, pos: int, line: u32)
    requires
        0 <= pos < cs.len(),
    ensures
        step(cs, pos, line) matches Step::Emit(token, _, _) ==> token.token_type != TokenType::EOF,
{
    let c = cs[pos];
    if is_alphabetic(c) {
        lemma_word_kind(cs.subrange(pos, word_end(cs, pos + 1)));
    }
}

proof fn lemma_scan_ends_once(cs: Seq<char>, pos: int, line: u32, done: Seq<TokenView>)
    requires
        forall|i: int| 0 <= i < done.len() ==> (#[trigger] done[i]).token_type != TokenType::EOF,
    ensures
        scan(cs, pos, line, done) matches Ok(tokens) ==> ends_once(tokens),
    decreases cs.len() - pos,
{
    reveal(scan);
    if 0 <= pos < cs.len() {
        lemma_step_emits_no_end(cs, pos, line);
        match step(cs, pos, line) {
            Step::Skip(next, reached) => {
                if pos < next <= cs.len() {
                    lemma_scan_ends_once(cs, next, reached, done);
                }
            },
            Step::Emit(token, next, reached) => {
                if pos < next <= cs.len() {
                    lemma_scan_ends_once(cs, next, reached, done.push(token));
                }
            },
            Step::Fail(_) => {},
        }
    }
}

/// The tokens of a text end with the end of input, and hold it nowhere
/// else: a parser that reads up to the end of input reads them all.
pub proof fn law_tokens_end_once(text: Seq<char>)
    ensures
        tokens_of(text) matches Ok(tokens) ==> ends_once(tokens),
{
    lemma_scan_ends_once(text, 0, 0, Seq::empty());
}

} // verus!
