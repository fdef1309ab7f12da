use vstd::prelude::*;
use crate::error::{LexError, LexErrorV};
use crate::number::{double_of_decimal, parse_double};
use crate::token::{view_tokens, Literal, LiteralV, Token, TokenKind, TokenV};

verus! {

/// An ASCII digit.
pub open spec fn digit(c: char) -> bool {
    '0' <= c && c <= '9'
}

/// A character that may start an identifier: an ASCII letter or an underscore.
pub open spec fn alpha(c: char) -> bool {
    ('a' <= c && c <= 'z') || ('A' <= c && c <= 'Z') || c == '_'
}

/// A character that may continue an identifier.
pub open spec fn alphanumeric(c: char) -> bool {
    alpha(c) || digit(c)
}

/// The end of the run of digits that starts at `i`.
pub open spec fn digits_end(s: Seq<char>, i: int) -> int
    decreases s.len() - i,
{
    if 0 <= i < s.len() && digit(s[i]) {
        digits_end(s, i + 1)
    } else {
        i
    }
}

/// The end of the run of letters, digits and underscores that starts at `i`.
pub open spec fn word_end(s: Seq<char>, i: int) -> int
    decreases s.len() - i,
{
    if 0 <= i < s.len() && alphanumeric(s[i]) {
        word_end(s, i + 1)
    } else {
        i
    }
}

/// The position of the first newline at or after `i`, or the end of the text.
pub open spec fn line_end(s: Seq<char>, i: int) -> int
    decreases s.len() - i,
{
    if 0 <= i < s.len() && s[i] != '\n' {
        line_end(s, i + 1)
    } else {
        i
    }
}

/// The position of the first quote at or after `i` that no backslash escapes, or the end of
/// the text.
pub open spec fn quote_end(s: Seq<char>, i: int) -> int
    decreases s.len() - i,
{
    if i < 0 || i >= s.len() || s[i] == '"' {
        i
    } else if s[i] == '\\' && i + 1 < s.len() {
        quote_end(s, i + 2)
    } else {
        quote_end(s, i + 1)
    }
}

/// The end of the number literal that starts at `i`: digits, then a dot and digits only where
/// a digit follows the dot.
pub open spec fn number_end(s: Seq<char>, i: int) -> int {
    let a = digits_end(s, i);
    if a + 1 < s.len() && s[a] == '.' && digit(s[a + 1]) {
        digits_end(s, a + 1)
    } else {
        a
    }
}

/// How many newlines a text holds.
pub open spec fn newlines(s: Seq<char>) -> nat
    decreases s.len(),
{
    if s.len() == 0 {
        0
    } else {
        newlines(s.drop_last()) + if s.last() == '\n' {
            1nat
        } else {
            0nat
        }
    }
}

/// The kind of a word: a keyword's own kind, else `Identifier`.
pub open spec fn keyword_kind(w: Seq<char>) -> TokenKind {
    if w == "and"@ {
        TokenKind::And
    } else if w == "class"@ {
        TokenKind::Class
    } else if w == "else"@ {
        TokenKind::Else
    } else if w == "false"@ {
        TokenKind::False
    } else if w == "for"@ {
        TokenKind::For
    } else if w == "fun"@ {
        TokenKind::Fun
    } else if w == "if"@ {
        TokenKind::If
    } else if w == "null"@ {
        TokenKind::Null
    } else if w == "or"@ {
        TokenKind::Or
    } else if w == "print"@ {
        TokenKind::Print
    } else if w == "return"@ {
        TokenKind::Return
    } else if w == "super"@ {
        TokenKind::Super
    } else if w == "this"@ {
        TokenKind::This
    } else if w == "true"@ {
        TokenKind::True
    } else if w == "var"@ {
        TokenKind::Var
    } else if w == "while"@ {
        TokenKind::While
    } else {
        TokenKind::Identifier
    }
}

/// The kind of a character that is a token by itself.
pub open spec fn single_kind(c: char) -> Option<TokenKind> {
    if c == '(' {
        Some(TokenKind::LeftParen)
    } else if c == ')' {
        Some(TokenKind::RightParen)
    } else if c == '{' {
        Some(TokenKind::LeftBrace)
    } else if c == '}' {
        Some(TokenKind::RightBrace)
    } else if c == ',' {
        Some(TokenKind::Comma)
    } else if c == '.' {
        Some(TokenKind::Dot)
    } else if c == '-' {
        Some(TokenKind::Minus)
    } else if c == '+' {
        Some(TokenKind::Plus)
    } else if c == ';' {
        Some(TokenKind::Semicolon)
    } else if c == '*' {
        Some(TokenKind::Star)
    } else {
        None
    }
}

/// The kind of `c` alone and of `c` followed by `=`, for the characters that may start a
/// two-character operator.
pub open spec fn operator_kinds(c: char) -> Option<(TokenKind, TokenKind)> {
    if c == '!' {
        Some((TokenKind::Bang, TokenKind::BangEqual))
    } else if c == '=' {
        Some((TokenKind::Equal, TokenKind::EqualEqual))
    } else if c == '<' {
        Some((TokenKind::LessThan, TokenKind::LessEqual))
    } else if c == '>' {
        Some((TokenKind::GreaterThan, TokenKind::GreaterEqual))
    } else {
        None
    }
}

/// The token of kind `kind` whose text is `s[i..j]`.
pub open spec fn token_at(
    kind: TokenKind,
    s: Seq<char>,
    i: int,
    j: int,
    literal: Option<LiteralV>,
    line: nat,
) -> TokenV {
    TokenV { kind, lexeme: s.subrange(i, j), literal, line }
}

/// One step of the scanner at position `i`, on line `line`: the token read, if any, where the
/// next step starts, and the line there.
pub open spec fn scan_step(s: Seq<char>, i: int, line: nat) -> Result<
    (Option<TokenV>, int, nat),
    LexErrorV,
> {
    let c = s[i];
    let j = i + 1;
    if c == '\n' {
        Ok((None, j, line + 1))
    } else if c == ' ' || c == '\r' || c == '\t' {
        Ok((None, j, line))
    } else if single_kind(c) is Some {
        Ok((Some(token_at(single_kind(c)->0, s, i, j, None, line)), j, line))
    } else if operator_kinds(c) is Some {
        let (alone, with_equal) = operator_kinds(c)->0;
        if j < s.len() && s[j] == '=' {
            Ok((Some(token_at(with_equal, s, i, j + 1, None, line)), j + 1, line))
        } else {
            Ok((Some(token_at(alone, s, i, j, None, line)), j, line))
        }
    } else if c == '/' {
        if j < s.len() && s[j] == '/' {
            Ok((None, line_end(s, j), line))
        } else {
            Ok((Some(token_at(TokenKind::Slash, s, i, j, None, line)), j, line))
        }
    } else if c == '"' {
        let k = quote_end(s, j);
        if k >= s.len() {
            Err(LexErrorV::UnterminatedString { line })
        } else {
            let body = s.subrange(j, k);
            Ok(
                (
                    Some(
                        token_at(
                            TokenKind::StringLiteral,
                            s,
                            i,
                            k + 1,
                            Some(LiteralV::StringLiteral(body)),
                            line,
                        ),
                    ),
                    k + 1,
                    line + newlines(body),
                ),
            )
        }
    } else if digit(c) {
        let k = number_end(s, i);
        let text = s.subrange(i, k);
        match double_of_decimal(text) {
            Some(b) => Ok(
                (
                    Some(token_at(TokenKind::Number, s, i, k, Some(LiteralV::Number(b)), line)),
                    k,
                    line,
                ),
            ),
            None => Err(LexErrorV::NumberParsingError { num_str: text, line }),
        }
    } else if alpha(c) {
        let k = word_end(s, j);
        Ok((Some(token_at(keyword_kind(s.subrange(i, k)), s, i, k, None, line)), k, line))
    } else {
        Err(LexErrorV::UnexpectedCharacter { char: c, line })
    }
}

/// The token read by a step, as a sequence of none or one.
pub open spec fn option_seq(t: Option<TokenV>) -> Seq<TokenV> {
    match t {
        Some(t) => seq![t],
        None => seq![],
    }
}

/// The terminal token, on line `line`.
pub open spec fn eof_token(line: nat) -> TokenV {
    TokenV { kind: TokenKind::EOF, lexeme: seq![], literal: None, line }
}

/// The scan of `s` from position `i` on line `line`, after the tokens `acc`.
pub open spec fn scan(s: Seq<char>, i: int, line: nat, acc: Seq<TokenV>) -> Result<
    Seq<TokenV>,
    LexErrorV,
>
    decreases s.len() - i,
{
    if i < 0 || i >= s.len() {
        Ok(acc.push(eof_token(line)))
    } else {
        match scan_step(s, i, line) {
            Err(e) => Err(e),
            Ok((t, k, l)) => {
                // every step consumes at least one character, so the guard always holds
                if i < k <= s.len() {
                    scan(s, k, l, acc + option_seq(t))
                } else {
                    Ok(acc)
                }
            },
        }
    }
}

/// The tokens of a source text, ending in the terminal token, or the first error.
pub open spec fn lex(s: Seq<char>) -> Result<Seq<TokenV>, LexErrorV> {
    scan(s, 0, 1, seq![])
}

/// Counting the newlines of a text one character further.
pub proof fn lemma_newlines_step(s: Seq<char>, a: int, b: int)
    requires
        0 <= a <= b < s.len(),
    ensures
        newlines(s.subrange(a, b + 1)) == newlines(s.subrange(a, b)) + if s[b] == '\n' {
            1nat
        } else {
            0nat
        },
{
    assert(s.subrange(a, b + 1).drop_last() =~= s.subrange(a, b));
}

/// Whether `c` is an ASCII digit.
pub fn is_digit(c: char) -> (r: bool)
    ensures
        r == digit(c),
{
    c >= '0' && c <= '9'
}

/// Whether `c` may start an identifier.
pub fn is_alpha(c: char) -> (r: bool)
    ensures
        r == alpha(c),
{
    (c >= 'a' && c <= 'z') || (c >= 'A' && c <= 'Z') || (c == '_')
}

/// Whether `c` may continue an identifier.
pub fn is_alphanumeric(c: char) -> (r: bool)
    ensures
        r == alphanumeric(c),
{
    is_alpha(c) || is_digit(c)
}

/// Relies on `String::push`: appends one character.
#[verifier::external_body]
fn push_char(s: &mut String, c: char)
    ensures
        final(s)@ == old(s)@.push(c),
{
    s.push(c)
}

/// Whether `chars[start..end]` spells `word`.
fn spells(chars: &Vec<char>, start: usize, end: usize, word: &str) -> (r: bool)
    requires
        start <= end <= chars.len(),
    ensures
        r == (chars@.subrange(start as int, end as int) == word@),
{
    let n = word.unicode_len();
    if end - start != n {
        return false;
    }
    let mut i: usize = 0;
    while i < n
        invariant
            n == word@.len(),
            end - start == n,
            start <= end <= chars.len(),
            i <= n,
            forall|k: int| 0 <= k < i ==> chars@[start + k] == word@[k],
        decreases n - i,
    {
        if chars[start + i] != word.get_char(i) {
            assert(chars@.subrange(start as int, end as int)[i as int] != word@[i as int]);
            return false;
        }
        i = i + 1;
    }
    assert(chars@.subrange(start as int, end as int) =~= word@);
    true
}

/// The kind of the word `chars[start..end]`.
fn word_kind(chars: &Vec<char>, start: usize, end: usize) -> (r: TokenKind)
    requires
        start <= end <= chars.len(),
    ensures
        r == keyword_kind(chars@.subrange(start as int, end as int)),
{
    if spells(chars, start, end, "and") {
        TokenKind::And
    } else if spells(chars, start, end, "class") {
        TokenKind::Class
    } else if spells(chars, start, end, "else") {
        TokenKind::Else
    } else if spells(chars, start, end, "false") {
        TokenKind::False
    } else if spells(chars, start, end, "for") {
        TokenKind::For
    } else if spells(chars, start, end, "fun") {
        TokenKind::Fun
    } else if spells(chars, start, end, "if") {
        TokenKind::If
    } else if spells(chars, start, end, "null") {
        TokenKind::Null
    } else if spells(chars, start, end, "or") {
        TokenKind::Or
    } else if spells(chars, start, end, "print") {
        TokenKind::Print
    } else if spells(chars, start, end, "return") {
        TokenKind::Return
    } else if spells(chars, start, end, "super") {
        TokenKind::Super
    } else if spells(chars, start, end, "this") {
        TokenKind::This
    } else if spells(chars, start, end, "true") {
        TokenKind::True
    } else if spells(chars, start, end, "var") {
        TokenKind::Var
    } else if spells(chars, start, end, "while") {
        TokenKind::While
    } else {
        TokenKind::Identifier
    }
}

/// The scanner's state: the characters of the source, the tokens read so far, where the
/// current lexeme starts, the read position and the current line.
pub struct Lexer {
    chars: Vec<char>,
    tokens: Vec<Token>,
    start: usize,
    current: usize,
    line: usize,
}

impl Lexer {
    /// The cursors stay within the text, and the line counter within the characters read.
    pub closed spec fn wf(&self) -> bool {
        &&& self.start <= self.current <= self.chars.len()
        &&& self.chars.len() < usize::MAX
        &&& 1 <= self.line <= self.current + 1
    }

    /// The characters of the source.
    pub closed spec fn text(&self) -> Seq<char> {
        self.chars@
    }

    /// The read position.
    pub closed spec fn position(&self) -> int {
        self.current as int
    }

    /// The current line.
    pub closed spec fn line_number(&self) -> nat {
        self.line as nat
    }

    /// The tokens read so far.
    pub closed spec fn scanned(&self) -> Seq<TokenV> {
        view_tokens(self.tokens@)
    }

    /// A scanner at the start of `source`, on line 1, with no tokens read.
    pub fn new(source: &str) -> (r: Lexer)
        requires
            source@.len() < usize::MAX,
        ensures
            r.wf(),
            r.text() == source@,
            r.position() == 0,
            r.line_number() == 1,
            r.scanned() == Seq::<TokenV>::empty(),
    {
        let mut chars: Vec<char> = Vec::new();
        for c in it: source.chars()
            invariant
                chars@ == it.seq().take(it.index() as int),
        {
            chars.push(c);
        }
        let r = Lexer { chars, tokens: Vec::new(), start: 0, current: 0, line: 1 };
        assert(view_tokens(r.tokens@) =~= Seq::<TokenV>::empty());
        r
    }

    fn is_at_end(&self) -> (r: bool)
        requires
            self.wf(),
        ensures
            r == (self.current == self.chars.len()),
    {
        self.current >= self.chars.len()
    }

    fn advance(&mut self) -> (c: char)
        requires
            old(self).wf(),
            old(self).current < old(self).chars.len(),
        ensures
            final(self).wf(),
            c == old(self).chars@[old(self).current as int],
            final(self).current == old(self).current + 1,
            final(self).chars == old(self).chars,
            final(self).tokens == old(self).tokens,
            final(self).start == old(self).start,
            final(self).line == old(self).line,
    {
        let c = self.chars[self.current];
        self.current = self.current + 1;
        c
    }

    /// The character at the read position, or `'\0'` at the end.
    fn peek(&self) -> (c: char)
        requires
            self.wf(),
        ensures
            self.current < self.chars.len() ==> c == self.chars@[self.current as int],
            self.current == self.chars.len() ==> c == '\0',
    {
        if self.current >= self.chars.len() {
            return '\0';
        }
        self.chars[self.current]
    }

    /// The character after the read position, or `'\0'` past the end.
    fn peek_next(&self) -> (c: char)
        requires
            self.wf(),
        ensures
            self.current + 1 < self.chars.len() ==> c == self.chars@[self.current + 1],
            self.current + 1 >= self.chars.len() ==> c == '\0',
    {
        if self.current + 1 >= self.chars.len() {
            return '\0';
        }
        self.chars[self.current + 1]
    }

    /// Whether the character at the read position is `c`.
    fn match_char(&self, c: char) -> (r: bool)
        requires
            self.wf(),
        ensures
            r == (self.current < self.chars.len() && self.chars@[self.current as int] == c),
    {
        if self.is_at_end() {
            return false;
        }
        self.peek() == c
    }

    /// The text `chars[from..to]`.
    fn text_between(&self, from: usize, to: usize) -> (r: String)
        requires
            from <= to <= self.chars.len(),
        ensures
            r@ == self.chars@.subrange(from as int, to as int),
    {
        let mut r = String::new();
        let mut i = from;
        while i < to
            invariant
                from <= i <= to <= self.chars.len(),
                r@ == self.chars@.subrange(from as int, i as int),
            decreases to - i,
        {
            push_char(&mut r, self.chars[i]);
            assert(r@ =~= self.chars@.subrange(from as int, i + 1));
            i = i + 1;
        }
        r
    }

    /// Appends the token of kind `kind` whose text is the current lexeme.
    fn add_token(&mut self, kind: TokenKind, literal: Option<Literal>, line: usize)
        requires
            old(self).wf(),
        ensures
            final(self).wf(),
            final(self).chars == old(self).chars,
            final(self).start == old(self).start,
            final(self).current == old(self).current,
            final(self).line == old(self).line,
            view_tokens(final(self).tokens@) == view_tokens(old(self).tokens@).push(
                token_at(
                    kind,
                    old(self).chars@,
                    old(self).start as int,
                    old(self).current as int,
                    crate::token::literal_view(literal),
                    line as nat,
                ),
            ),
    {
        let lexeme = self.text_between(self.start, self.current);
        let ghost before = self.tokens@;
        self.tokens.push(Token { kind, lexeme, literal, line });
        assert(view_tokens(self.tokens@) =~= view_tokens(before).push(self.tokens@.last()@));
    }

    fn increment_line(&mut self)
        requires
            old(self).wf(),
            old(self).line < old(self).current + 1,
        ensures
            final(self).wf(),
            final(self).line == old(self).line + 1,
            final(self).chars == old(self).chars,
            final(self).tokens == old(self).tokens,
            final(self).start == old(self).start,
            final(self).current == old(self).current,
    {
        self.line = self.line + 1
    }

    /// Reads a string literal whose opening quote was just read.
    fn string(&mut self) -> (r: Result<(), LexError>)
        requires
            old(self).wf(),
            old(self).current == old(self).start + 1,
            old(self).chars@[old(self).start as int] == '"',
        ensures
            final(self).wf(),
            final(self).chars == old(self).chars,
            final(self).start == old(self).start,
            final(self).current > old(self).start,
            ({
                let s = old(self).chars@;
                let j = old(self).current as int;
                let k = quote_end(s, j);
                if k >= s.len() {
                    r is Err && r->Err_0@ == LexErrorV::UnterminatedString {
                        line: old(self).line as nat,
                    }
                } else {
                    &&& r is Ok
                    &&& final(self).current == k + 1
                    &&& final(self).line == old(self).line + newlines(s.subrange(j, k))
                    &&& view_tokens(final(self).tokens@) == view_tokens(old(self).tokens@).push(
                        token_at(
                            TokenKind::StringLiteral,
                            s,
                            old(self).start as int,
                            k + 1,
                            Some(LiteralV::StringLiteral(s.subrange(j, k))),
                            old(self).line as nat,
                        ),
                    )
                }
            }),
    {
        let ghost s = self.chars@;
        let first = self.current;
        let line = self.line;
        proof {
            assert(s.subrange(first as int, first as int) =~= Seq::<char>::empty());
        }
        while !self.is_at_end() && self.peek() != '"'
            invariant
                self.wf(),
                self.chars@ == s,
                self.chars == old(self).chars,
                self.start + 1 == first <= self.current,
                self.tokens == old(self).tokens,
                quote_end(s, self.current as int) == quote_end(s, first as int),
                self.line == line + newlines(s.subrange(first as int, self.current as int)),
            decreases s.len() - self.current,
        {
            let c = self.advance();
            proof {
                lemma_newlines_step(s, first as int, self.current - 1);
            }
            if c == '\n' {
                self.increment_line();
            }
            if c == '\\' && !self.is_at_end() {
                let d = self.advance();
                proof {
                    lemma_newlines_step(s, first as int, self.current - 1);
                }
                if d == '\n' {
                    self.increment_line();
                }
            }
        }
        if self.is_at_end() {
            return Err(LexError::UnterminatedString { line });
        }
        let last = self.current;
        self.advance();
        let value = self.text_between(first, last);
        self.add_token(TokenKind::StringLiteral, Some(Literal::StringLiteral(value)), line);
        Ok(())
    }

    /// Reads a number literal whose first digit was just read.
    fn number(&mut self) -> (r: Result<(), LexError>)
        requires
            old(self).wf(),
            old(self).current == old(self).start + 1,
            digit(old(self).chars@[old(self).start as int]),
        ensures
            final(self).wf(),
            final(self).chars == old(self).chars,
            final(self).start == old(self).start,
            final(self).current > old(self).start,
            final(self).line == old(self).line,
            ({
                let s = old(self).chars@;
                let i = old(self).start as int;
                let k = number_end(s, i);
                let text = s.subrange(i, k);
                match double_of_decimal(text) {
                    Some(b) => {
                        &&& r is Ok
                        &&& final(self).current == k
                        &&& view_tokens(final(self).tokens@) == view_tokens(
                            old(self).tokens@,
                        ).push(
                            token_at(
                                TokenKind::Number,
                                s,
                                i,
                                k,
                                Some(LiteralV::Number(b)),
                                old(self).line as nat,
                            ),
                        )
                    },
                    None => r is Err && r->Err_0@ == LexErrorV::NumberParsingError {
                        num_str: text,
                        line: old(self).line as nat,
                    },
                }
            }),
    {
        let ghost s = self.chars@;
        let ghost i = self.start as int;
        while is_digit(self.peek())
            invariant
                self.wf(),
                self.chars@ == s,
                self.chars == old(self).chars,
                self.start == i,
                i < self.current,
                self.tokens == old(self).tokens,
                self.line == old(self).line,
                digits_end(s, self.current as int) == digits_end(s, i),
            decreases s.len() - self.current,
        {
            self.advance();
        }
        if self.peek() == '.' && is_digit(self.peek_next()) {
            self.advance();
            let ghost dot_next = self.current as int;
            while is_digit(self.peek())
                invariant
                    self.wf(),
                    self.chars@ == s,
                self.chars == old(self).chars,
                    self.start == i,
                    dot_next <= self.current,
                    self.tokens == old(self).tokens,
                    self.line == old(self).line,
                    digits_end(s, self.current as int) == digits_end(s, dot_next),
                decreases s.len() - self.current,
            {
                self.advance();
            }
        }
        let text = self.text_between(self.start, self.current);
        match parse_double(text.as_str()) {
            Some(b) => {
                let line = self.line;
                self.add_token(TokenKind::Number, Some(Literal::Number(b)), line);
                Ok(())
            },
            None => Err(LexError::NumberParsingError { num_str: text, line: self.line }),
        }
    }

    /// Reads an identifier or keyword whose first character was just read.
    fn identifier(&mut self)
        requires
            old(self).wf(),
            old(self).current == old(self).start + 1,
            alpha(old(self).chars@[old(self).start as int]),
        ensures
            final(self).wf(),
            final(self).chars == old(self).chars,
            final(self).start == old(self).start,
            final(self).current > old(self).start,
            final(self).line == old(self).line,
            ({
                let s = old(self).chars@;
                let i = old(self).start as int;
                let k = word_end(s, i + 1);
                &&& final(self).current == k
                &&& view_tokens(final(self).tokens@) == view_tokens(old(self).tokens@).push(
                    token_at(keyword_kind(s.subrange(i, k)), s, i, k, None, old(self).line as nat),
                )
            }),
    {
        let ghost s = self.chars@;
        let ghost i = self.start as int;
        while is_alphanumeric(self.peek())
            invariant
                self.wf(),
                self.chars@ == s,
                self.chars == old(self).chars,
                self.start == i,
                i < self.current,
                self.tokens == old(self).tokens,
                self.line == old(self).line,
                word_end(s, self.current as int) == word_end(s, i + 1),
            decreases s.len() - self.current,
        {
            self.advance();
        }
        let kind = word_kind(&self.chars, self.start, self.current);
        let line = self.line;
        self.add_token(kind, None, line);
    }

    /// Appends the token of kind `kind` for a lexeme without a literal value.
    fn add_plain(&mut self, kind: TokenKind)
        requires
            old(self).wf(),
        ensures
            final(self).wf(),
            final(self).chars == old(self).chars,
            final(self).start == old(self).start,
            final(self).current == old(self).current,
            final(self).line == old(self).line,
            view_tokens(final(self).tokens@) == view_tokens(old(self).tokens@).push(
                token_at(
                    kind,
                    old(self).chars@,
                    old(self).start as int,
                    old(self).current as int,
                    None,
                    old(self).line as nat,
                ),
            ),
    {
        let line = self.line;
        self.add_token(kind, None, line);
    }

    /// Reads what starts at the read position: one token, or whitespace, a newline or a
    /// comment, which give none.
    fn scan_token(&mut self) -> (r: Result<(), LexError>)
        requires
            old(self).wf(),
            old(self).start == old(self).current,
            old(self).current < old(self).chars.len(),
        ensures
            final(self).wf(),
            final(self).chars == old(self).chars,
            match scan_step(old(self).chars@, old(self).current as int, old(self).line as nat) {
                Ok((t, k, l)) => {
                    &&& r is Ok
                    &&& final(self).current == k
                    &&& k > old(self).current
                    &&& final(self).line == l
                    &&& view_tokens(final(self).tokens@) == view_tokens(old(self).tokens@)
                        + option_seq(t)
                },
                Err(e) => r is Err && r->Err_0@ == e,
            },
    {
        let ghost s = self.chars@;
        let ghost old_tokens = view_tokens(self.tokens@);
        let c = self.advance();
        match c {
            '\n' => {
                self.increment_line();
                assert(old_tokens + option_seq(None) =~= old_tokens);
            },
            ' ' | '\r' | '\t' => {
                assert(old_tokens + option_seq(None) =~= old_tokens);
            },
            '(' => self.add_plain(TokenKind::LeftParen),
            ')' => self.add_plain(TokenKind::RightParen),
            '{' => self.add_plain(TokenKind::LeftBrace),
            '}' => self.add_plain(TokenKind::RightBrace),
            ',' => self.add_plain(TokenKind::Comma),
            '.' => self.add_plain(TokenKind::Dot),
            '-' => self.add_plain(TokenKind::Minus),
            '+' => self.add_plain(TokenKind::Plus),
            ';' => self.add_plain(TokenKind::Semicolon),
            '*' => self.add_plain(TokenKind::Star),
            '!' => {
                if self.match_char('=') {
                    self.advance();
                    self.add_plain(TokenKind::BangEqual);
                } else {
                    self.add_plain(TokenKind::Bang);
                }
            },
            '=' => {
                if self.match_char('=') {
                    self.advance();
                    self.add_plain(TokenKind::EqualEqual);
                } else {
                    self.add_plain(TokenKind::Equal);
                }
            },
            '<' => {
                if self.match_char('=') {
                    self.advance();
                    self.add_plain(TokenKind::LessEqual);
                } else {
                    self.add_plain(TokenKind::LessThan);
                }
            },
            '>' => {
                if self.match_char('=') {
                    self.advance();
                    self.add_plain(TokenKind::GreaterEqual);
                } else {
                    self.add_plain(TokenKind::GreaterThan);
                }
            },
            '/' => {
                if self.match_char('/') {
                    let ghost j = self.current as int;
                    while self.peek() != '\n' && !self.is_at_end()
                        invariant
                            self.wf(),
                            self.chars == old(self).chars,
                            self.chars@ == s,
                            j <= self.current,
                            self.tokens == old(self).tokens,
                            self.line == old(self).line,
                            line_end(s, self.current as int) == line_end(s, j),
                        decreases s.len() - self.current,
                    {
                        self.advance();
                    }
                    assert(old_tokens + option_seq(None) =~= old_tokens);
                } else {
                    self.add_plain(TokenKind::Slash);
                }
            },
            '"' => {
                let result = self.string();
                match result {
                    Ok(_) => (),
                    Err(e) => return Err(e),
                }
            },
            _ => {
                if is_digit(c) {
                    let result = self.number();
                    match result {
                        Ok(_) => (),
                        Err(e) => return Err(e),
                    }
                } else if is_alpha(c) {
                    self.identifier();
                } else {
                    return Err(LexError::UnexpectedCharacter { char: c, line: self.line });
                }
            },
        }
        proof {
            let t = view_tokens(self.tokens@);
            if t.len() == old_tokens.len() + 1 {
                assert(old_tokens + seq![t.last()] =~= t);
            }
        }
        Ok(())
    }
}

/// The tokens of `source`, ending in the terminal token, or the first error.
pub fn lex_program(source: &str) -> (r: Result<Vec<Token>, LexError>)
    requires
        source@.len() < usize::MAX,
    ensures
        match lex(source@) {
            Ok(ts) => r is Ok && view_tokens(r->Ok_0@) == ts,
            Err(e) => r is Err && r->Err_0@ == e,
        },
{
    let mut lexer = Lexer::new(source);
    let ghost s = source@;
    while !lexer.is_at_end()
        invariant
            lexer.wf(),
            s == source@,
            lexer.chars@ == s,
            scan(s, lexer.current as int, lexer.line as nat, view_tokens(lexer.tokens@)) == lex(
                s,
            ),
        decreases s.len() - lexer.current,
    {
        lexer.start = lexer.current;
        let ghost before = lexer;
        match lexer.scan_token() {
            Ok(_) => {},
            Err(e) => {
                proof {
                    let acc = view_tokens(before.tokens@);
                    assert(scan(s, before.current as int, before.line as nat, acc) == Err::<
                        Seq<TokenV>,
                        LexErrorV,
                    >(e@));
                }
                return Err(e);
            },
        }
        proof {
            let acc = view_tokens(before.tokens@);
            assert(scan(s, before.current as int, before.line as nat, acc) == scan(
                s,
                lexer.current as int,
                lexer.line as nat,
                view_tokens(lexer.tokens@),
            ));
        }
    }
    let ghost before = view_tokens(lexer.tokens@);
    let line = lexer.line;
    lexer.tokens.push(Token { kind: TokenKind::EOF, lexeme: String::new(), literal: None, line });
    proof {
        assert(view_tokens(lexer.tokens@) =~= before.push(eof_token(line as nat)));
    }
    Ok(lexer.tokens)
}


/// A decimal literal: a run of digits, then optionally a dot and a second run of digits.
pub open spec fn is_decimal_literal(n: Seq<char>) -> bool {
    let a = digits_end(n, 0);
    &&& a > 0
    &&& a == n.len() || (n[a] == '.' && a + 1 < n.len() && digits_end(n, a + 1) == n.len())
}

proof fn lemma_digits_end_bounds(s: Seq<char>, i: int)
    requires
        0 <= i <= s.len(),
    ensures
        i <= digits_end(s, i) <= s.len(),
    decreases s.len() - i,
{
    if i < s.len() && digit(s[i]) {
        lemma_digits_end_bounds(s, i + 1);
    }
}

/// Scanning a decimal literal alone gives one number token, whose value is the double that
/// the literal denotes, then the terminal token; or, where the text denotes no double, the
/// error that says so.
pub proof fn lemma_lex_number(n: Seq<char>)
    requires
        is_decimal_literal(n),
    ensures
        lex(n) == match double_of_decimal(n) {
            Some(b) => Ok(
                seq![
                    TokenV {
                        kind: TokenKind::Number,
                        lexeme: n,
                        literal: Some(LiteralV::Number(b)),
                        line: 1,
                    },
                    eof_token(1),
                ],
            ),
            None => Err(LexErrorV::NumberParsingError { num_str: n, line: 1 }),
        },
{
    lemma_digits_end_bounds(n, 0);
    let a = digits_end(n, 0);
    assert(digit(n[0]));
    if a < n.len() {
        assert(digit(n[a + 1]));
    }
    assert(number_end(n, 0) == n.len());
    assert(n.subrange(0, n.len() as int) =~= n);
    let step = scan_step(n, 0, 1);
    match double_of_decimal(n) {
        Some(b) => {
            let t = TokenV {
                kind: TokenKind::Number,
                lexeme: n,
                literal: Some(LiteralV::Number(b)),
                line: 1,
            };
            assert(step == Ok::<(Option<TokenV>, int, nat), LexErrorV>((Some(t), n.len() as int, 1)));
            assert(seq![] + option_seq(Some(t)) =~= seq![t]);
            assert(scan(n, n.len() as int, 1, seq![t]) == Ok::<Seq<TokenV>, LexErrorV>(
                seq![t].push(eof_token(1)),
            ));
            assert(seq![t].push(eof_token(1)) =~= seq![t, eof_token(1)]);
        },
        None => {},
    }
}

/// Where `prefix` is put before `t`, the first unescaped quote moves with it.
proof fn lemma_quote_end_shift(prefix: Seq<char>, t: Seq<char>, i: int)
    requires
        0 <= i <= t.len(),
    ensures
        quote_end(prefix + t, i + prefix.len()) == quote_end(t, i) + prefix.len(),
    decreases t.len() - i,
{
    let u = prefix + t;
    let j = i + prefix.len();
    if i < t.len() {
        assert(u[j] == t[i]);
        if t[i] != '"' {
            if t[i] == '\\' && i + 1 < t.len() {
                lemma_quote_end_shift(prefix, t, i + 2);
            } else {
                lemma_quote_end_shift(prefix, t, i + 1);
            }
        }
    }
}

/// A text whose first unescaped quote is the closing one that follows it.
pub open spec fn is_string_body(s: Seq<char>) -> bool {
    quote_end(s.push('"'), 0) == s.len()
}

/// Scanning a quoted text alone, whose closing quote is its first unescaped one, gives one
/// string token, whose value is the text between the quotes, then the terminal token.
pub proof fn lemma_lex_string(s: Seq<char>)
    requires
        is_string_body(s),
    ensures
        lex(seq!['"'] + s + seq!['"']) == Ok::<Seq<TokenV>, LexErrorV>(
            seq![
                TokenV {
                    kind: TokenKind::StringLiteral,
                    lexeme: seq!['"'] + s + seq!['"'],
                    literal: Some(LiteralV::StringLiteral(s)),
                    line: 1,
                },
                eof_token(1 + newlines(s)),
            ],
        ),
{
    let src = seq!['"'] + s + seq!['"'];
    let t = s.push('"');
    assert(src =~= seq!['"'] + t);
    lemma_quote_end_shift(seq!['"'], t, 0);
    assert(quote_end(src, 1) == s.len() + 1);
    assert(src.subrange(1, s.len() as int + 1) =~= s);
    assert(src.subrange(0, s.len() as int + 2) =~= src);
    let tok = TokenV {
        kind: TokenKind::StringLiteral,
        lexeme: src,
        literal: Some(LiteralV::StringLiteral(s)),
        line: 1,
    };
    assert(src[0] == '"');
    assert(scan_step(src, 0, 1) == Ok::<(Option<TokenV>, int, nat), LexErrorV>(
        (Some(tok), src.len() as int, 1 + newlines(s)),
    ));
    assert(seq![] + option_seq(Some(tok)) =~= seq![tok]);
    assert(scan(src, src.len() as int, 1 + newlines(s), seq![tok]) == Ok::<Seq<TokenV>, LexErrorV>(
        seq![tok].push(eof_token(1 + newlines(s))),
    ));
    assert(seq![tok].push(eof_token(1 + newlines(s))) =~= seq![tok, eof_token(1 + newlines(s))]);
}

/// Scanning a text that opens a string and never closes it fails, on the line where the
/// string began.
pub proof fn lemma_lex_unterminated(s: Seq<char>)
    requires
        quote_end(s, 0) == s.len(),
    ensures
        lex(seq!['"'] + s) == Err::<Seq<TokenV>, LexErrorV>(
            LexErrorV::UnterminatedString { line: 1 },
        ),
{
    let src = seq!['"'] + s;
    lemma_quote_end_shift(seq!['"'], s, 0);
    assert(src[0] == '"');
    assert(scan_step(src, 0, 1) == Err::<(Option<TokenV>, int, nat), LexErrorV>(
        LexErrorV::UnterminatedString { line: 1 },
    ));
}

} // verus!
