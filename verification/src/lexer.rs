//! The lexer: from source text to tokens, one at a time, each with the bytes
//! it occupies.
use vstd::prelude::*;
use crate::error::{LexerError, LexerErrorKind};
use crate::span::Span;
use crate::text::{
    alphabetic, byte_len, byte_offset, char_width, chars_of, lemma_byte_offset_bound,
    lemma_byte_offset_monotonic, lemma_byte_offset_step, push_chars, whitespace,
};
use crate::token::{Const, Keyword, Token, TokenKind, TokenKindView, TokenView};

verus! {

/// A letter of ASCII or an underscore: what an identifier starts with.
pub open spec fn is_identifier_start(c: char) -> bool {
    c == '_' || ('a' <= c && c <= 'z') || ('A' <= c && c <= 'Z')
}

/// A decimal digit of ASCII.
pub open spec fn is_digit(c: char) -> bool {
    '0' <= c && c <= '9'
}

/// What an identifier goes on with.
pub open spec fn is_identifier_part(c: char) -> bool {
    is_identifier_start(c) || is_digit(c)
}

/// The index behind the run of whitespace that starts at `i`.
pub open spec fn whitespace_end(s: Seq<char>, i: int) -> int
    decreases s.len() - i,
{
    if 0 <= i < s.len() && whitespace(s[i]) {
        whitespace_end(s, i + 1)
    } else {
        i
    }
}

/// The index behind the run of identifier characters that starts at `i`.
pub open spec fn identifier_end(s: Seq<char>, i: int) -> int
    decreases s.len() - i,
{
    if 0 <= i < s.len() && is_identifier_part(s[i]) {
        identifier_end(s, i + 1)
    } else {
        i
    }
}

/// The index behind the run of digits that starts at `i`.
pub open spec fn digits_end(s: Seq<char>, i: int) -> int
    decreases s.len() - i,
{
    if 0 <= i < s.len() && is_digit(s[i]) {
        digits_end(s, i + 1)
    } else {
        i
    }
}

/// The number that a run of digits denotes.
pub open spec fn digits_value(digits: Seq<char>) -> nat
    decreases digits.len(),
{
    if digits.len() == 0 {
        0
    } else {
        digits_value(digits.drop_last()) * 10 + (digits.last() as nat - 48) as nat
    }
}

/// The keyword that a word is, if it is one.
pub open spec fn keyword_of(word: Seq<char>) -> Option<Keyword> {
    if word =~= seq!['i', 'n', 't'] {
        Some(Keyword::Int)
    } else if word =~= seq!['v', 'o', 'i', 'd'] {
        Some(Keyword::Void)
    } else if word =~= seq!['r', 'e', 't', 'u', 'r', 'n'] {
        Some(Keyword::Return)
    } else {
        None
    }
}

/// The kind of token that a word is: a keyword, or else an identifier.
pub open spec fn word_kind(word: Seq<char>) -> TokenKindView {
    match keyword_of(word) {
        Some(k) => TokenKindView::Keyword(k),
        None => TokenKindView::Identifier(word),
    }
}

/// The kind of token that a punctuation character is, if it is one.
pub open spec fn punctuation_kind(c: char) -> Option<TokenKindView> {
    if c == '(' {
        Some(TokenKindView::OpenParenthesis)
    } else if c == ')' {
        Some(TokenKindView::CloseParenthesis)
    } else if c == '{' {
        Some(TokenKindView::OpenBrace)
    } else if c == '}' {
        Some(TokenKindView::CloseBrace)
    } else if c == ';' {
        Some(TokenKindView::Semicolon)
    } else {
        None
    }
}

/// The bytes that the characters `s[i..j]` occupy.
pub open spec fn span_between(s: Seq<char>, i: int, j: int) -> Span {
    Span { start: byte_offset(s, i) as usize, end: byte_offset(s, j) as usize }
}

/// The single byte at which the character of index `i` starts; for `i` the
/// length of `s`, the byte just behind the text.
pub open spec fn point_at(s: Seq<char>, i: int) -> Span {
    Span { start: byte_offset(s, i) as usize, end: (byte_offset(s, i) + 1) as usize }
}

/// One step of lexing: what is handed out, and the index at which the next
/// step starts.
pub struct Step {
    pub item: Option<Result<TokenView, LexerError>>,
    pub next: int,
}

/// The step that starts at the character of index `i`: whitespace is passed
/// over, then the next character decides. Every step that hands out a token
/// or an error reads at least one character, so the steps come to an end.
pub open spec fn step(s: Seq<char>, i: int) -> Step {
    let j = whitespace_end(s, i);
    if !(0 <= j < s.len()) {
        Step { item: None, next: j }
    } else if is_identifier_start(s[j]) {
        let k = identifier_end(s, j + 1);
        Step {
            item: Some(
                Ok(TokenView { kind: word_kind(s.subrange(j, k)), span: span_between(s, j, k) }),
            ),
            next: k,
        }
    } else if is_digit(s[j]) {
        let k = digits_end(s, j + 1);
        Step { item: Some(constant_at(s, j, k)), next: k }
    } else if punctuation_kind(s[j]) is Some {
        Step {
            item: Some(
                Ok(TokenView { kind: punctuation_kind(s[j])->0, span: span_between(s, j, j + 1) }),
            ),
            next: j + 1,
        }
    } else {
        Step {
            item: Some(
                Err(
                    LexerError {
                        kind: LexerErrorKind::UnexpectedCharacter(s[j]),
                        span: point_at(s, j),
                    },
                ),
            ),
            next: j + 1,
        }
    }
}

/// The constant whose digits are `s[j..k]`: refused where a letter or an
/// underscore follows, and where the value is too large.
pub open spec fn constant_at(s: Seq<char>, j: int, k: int) -> Result<TokenView, LexerError> {
    if k < s.len() && (alphabetic(s[k]) || s[k] == '_') {
        Err(LexerError { kind: LexerErrorKind::InvalidConstSuffix, span: point_at(s, k) })
    } else if digits_value(s.subrange(j, k)) > i64::MAX {
        Err(
            LexerError {
                kind: LexerErrorKind::InvalidIntegerLiteral,
                span: span_between(s, j, k),
            },
        )
    } else {
        Ok(
            TokenView {
                kind: TokenKindView::Constant(Const::Int(digits_value(s.subrange(j, k)) as i64)),
                span: span_between(s, j, k),
            },
        )
    }
}

/// The mathematical value of what the lexer hands out.
pub open spec fn item_view(item: Option<Result<Token, LexerError>>) -> Option<
    Result<TokenView, LexerError>,
> {
    match item {
        None => None,
        Some(Ok(token)) => Some(Ok(token@)),
        Some(Err(e)) => Some(Err(e)),
    }
}

/// A run of whitespace ends at or behind its start, within the text.
pub proof fn lemma_whitespace_end_bounds(s: Seq<char>, i: int)
    requires
        0 <= i <= s.len(),
    ensures
        i <= whitespace_end(s, i) <= s.len(),
    decreases s.len() - i,
{
    if i < s.len() && whitespace(s[i]) {
        lemma_whitespace_end_bounds(s, i + 1);
    }
}

/// A run of identifier characters ends at or behind its start, within the
/// text.
pub proof fn lemma_identifier_end_bounds(s: Seq<char>, i: int)
    requires
        0 <= i <= s.len(),
    ensures
        i <= identifier_end(s, i) <= s.len(),
    decreases s.len() - i,
{
    if i < s.len() && is_identifier_part(s[i]) {
        lemma_identifier_end_bounds(s, i + 1);
    }
}

/// A run of digits ends at or behind its start, within the text.
pub proof fn lemma_digits_end_bounds(s: Seq<char>, i: int)
    requires
        0 <= i <= s.len(),
    ensures
        i <= digits_end(s, i) <= s.len(),
    decreases s.len() - i,
{
    if i < s.len() && is_digit(s[i]) {
        lemma_digits_end_bounds(s, i + 1);
    }
}

/// Whether an identifier can start with `c`.
fn starts_identifier(c: char) -> (b: bool)
    ensures
        b == is_identifier_start(c),
{
    c == '_' || ('a' <= c && c <= 'z') || ('A' <= c && c <= 'Z')
}

/// Whether `c` is a decimal digit.
fn digit(c: char) -> (b: bool)
    ensures
        b == is_digit(c),
{
    '0' <= c && c <= '9'
}

/// The keyword that `chars[from..to]` spells, if it spells one.
fn keyword_at(chars: &Vec<char>, from: usize, to: usize) -> (k: Option<Keyword>)
    requires
        from <= to <= chars.len(),
    ensures
        k == keyword_of(chars@.subrange(from as int, to as int)),
{
    let ghost word = chars@.subrange(from as int, to as int);
    let n: usize = to - from;
    if n == 3 && chars[from] == 'i' && chars[from + 1] == 'n' && chars[from + 2] == 't' {
        assert(word =~= seq!['i', 'n', 't']);
        Some(Keyword::Int)
    } else if n == 4 && chars[from] == 'v' && chars[from + 1] == 'o' && chars[from + 2] == 'i'
        && chars[from + 3] == 'd' {
        assert(word =~= seq!['v', 'o', 'i', 'd']);
        Some(Keyword::Void)
    } else if n == 6 && chars[from] == 'r' && chars[from + 1] == 'e' && chars[from + 2] == 't'
        && chars[from + 3] == 'u' && chars[from + 4] == 'r' && chars[from + 5] == 'n' {
        assert(word =~= seq!['r', 'e', 't', 'u', 'r', 'n']);
        Some(Keyword::Return)
    } else {
        proof {
            if n == 3 {
                assert(word[0] == chars@[from as int] && word[1] == chars@[from + 1] && word[2]
                    == chars@[from + 2]);
            }
            if n == 4 {
                assert(word[0] == chars@[from as int] && word[1] == chars@[from + 1] && word[2]
                    == chars@[from + 2] && word[3] == chars@[from + 3]);
            }
            if n == 6 {
                assert(word[0] == chars@[from as int] && word[1] == chars@[from + 1] && word[2]
                    == chars@[from + 2] && word[3] == chars@[from + 3] && word[4] == chars@[from
                    + 4] && word[5] == chars@[from + 5]);
            }
        }
        None
    }
}

/// The value of the digits `chars[from..to]`, unless it is too large for a
/// signed 64-bit integer.
fn digits_to_int(chars: &Vec<char>, from: usize, to: usize) -> (value: Option<i64>)
    requires
        from <= to <= chars.len(),
        forall|i: int| from <= i < to ==> is_digit(#[trigger] chars@[i]),
    ensures
        value is Some <==> digits_value(chars@.subrange(from as int, to as int)) <= i64::MAX,
        value is Some ==> value->0 == digits_value(chars@.subrange(from as int, to as int)),
{
    let mut acc: i64 = 0;
    let mut i: usize = from;
    proof {
        assert(chars@.subrange(from as int, from as int) =~= Seq::<char>::empty());
    }
    while i < to
        invariant
            from <= i <= to <= chars.len(),
            forall|i: int| from <= i < to ==> is_digit(#[trigger] chars@[i]),
            0 <= acc,
            acc == digits_value(chars@.subrange(from as int, i as int)),
        decreases to - i,
    {
        let d: i64 = (chars[i] as u32 - 48) as i64;
        proof {
            let longer = chars@.subrange(from as int, i + 1);
            assert(longer.drop_last() =~= chars@.subrange(from as int, i as int));
            assert(longer.last() == chars@[i as int]);
            assert(digits_value(longer) == acc * 10 + d);
        }
        if acc > (i64::MAX - d) / 10 {
            proof {
                lemma_digits_value_grows(chars@.subrange(from as int, to as int), i + 1 - from);
                assert(chars@.subrange(from as int, to as int).take(i + 1 - from)
                    =~= chars@.subrange(from as int, i + 1));
            }
            return None;
        }
        acc = acc * 10 + d;
        i += 1;
    }
    Some(acc)
}

/// More digits never denote a smaller number.
pub proof fn lemma_digits_value_grows(digits: Seq<char>, k: int)
    requires
        0 <= k <= digits.len(),
    ensures
        digits_value(digits.take(k)) <= digits_value(digits),
    decreases digits.len(),
{
    if k == digits.len() {
        assert(digits.take(k) =~= digits);
    } else {
        assert(digits.drop_last().take(k) =~= digits.take(k));
        lemma_digits_value_grows(digits.drop_last(), k);
    }
}

/// A lexer over one source text. It reads from left to right and never goes
/// back behind a token that it has handed out.
pub struct Lexer<'a> {
    src: &'a str,
    chars: Vec<char>,
    index: usize,
    pos: usize,
}

impl<'a> Lexer<'a> {
    /// The text that is read.
    pub closed spec fn source(&self) -> Seq<char> {
        self.src@
    }

    /// The index of the next character to read.
    pub closed spec fn cursor(&self) -> int {
        self.index as int
    }

    /// The cursor lies within the text, and the text's bytes can be counted.
    pub closed spec fn wf(&self) -> bool {
        &&& self.chars@ == self.src@
        &&& self.index <= self.chars.len()
        &&& self.pos == byte_offset(self.chars@, self.index as int)
        &&& byte_len(self.chars@) < usize::MAX
    }

    /// A lexer at the start of `src`. The text must be shorter than the
    /// largest `usize`, which `src.as_bytes().len() < usize::MAX` tells.
    pub fn new(src: &'a str) -> (lexer: Self)
        requires
            byte_len(src@) < usize::MAX,
        ensures
            lexer.wf(),
            lexer.source() == src@,
            lexer.cursor() == 0,
    {
        let chars = chars_of(src);
        proof {
            lemma_byte_offset_bound(chars@, 0);
        }
        Self { src, chars, index: 0, pos: 0 }
    }

    /// The byte offset of the next character to read.
    pub fn pos(&self) -> (pos: usize)
        requires
            self.wf(),
        ensures
            pos == byte_offset(self.source(), self.cursor()),
            pos < usize::MAX,
    {
        proof {
            lemma_byte_offset_bound(self.chars@, self.index as int);
        }
        self.pos
    }

    /// The cursor of a well-formed lexer lies within its text.
    pub proof fn lemma_cursor_in_source(&self)
        requires
            self.wf(),
        ensures
            0 <= self.cursor() <= self.source().len(),
            byte_len(self.source()) < usize::MAX,
    {
    }

    /// The next character, if there is one; it is not taken.
    fn peek_char(&self) -> (c: Option<char>)
        requires
            self.wf(),
        ensures
            c == if self.cursor() < self.source().len() {
                Some(self.source()[self.cursor()])
            } else {
                None
            },
    {
        if self.index < self.chars.len() {
            Some(self.chars[self.index])
        } else {
            None
        }
    }

    /// Whether a whitespace character is next.
    fn at_whitespace(&self) -> (b: bool)
        requires
            self.wf(),
        ensures
            b == (self.cursor() < self.source().len() && whitespace(
                self.source()[self.cursor()],
            )),
    {
        match self.peek_char() {
            Some(c) => c.is_whitespace(),
            None => false,
        }
    }

    /// Whether a character that an identifier goes on with is next.
    fn at_identifier_part(&self) -> (b: bool)
        requires
            self.wf(),
        ensures
            b == (self.cursor() < self.source().len() && is_identifier_part(
                self.source()[self.cursor()],
            )),
    {
        match self.peek_char() {
            Some(c) => starts_identifier(c) || digit(c),
            None => false,
        }
    }

    /// Whether a digit is next.
    fn at_digit(&self) -> (b: bool)
        requires
            self.wf(),
        ensures
            b == (self.cursor() < self.source().len() && is_digit(self.source()[self.cursor()])),
    {
        match self.peek_char() {
            Some(c) => digit(c),
            None => false,
        }
    }

    /// Takes the next character.
    fn consume_char(&mut self)
        requires
            old(self).wf(),
            old(self).cursor() < old(self).source().len(),
        ensures
            final(self).wf(),
            final(self).source() == old(self).source(),
            final(self).cursor() == old(self).cursor() + 1,
    {
        proof {
            lemma_byte_offset_step(self.chars@, self.index as int);
        }
        let width: usize = char_width(self.chars[self.index]);
        self.pos = self.pos + width;
        self.index = self.index + 1;
    }

    /// Passes over the whitespace in front of the next token.
    fn skip_ws(&mut self)
        requires
            old(self).wf(),
        ensures
            final(self).wf(),
            final(self).source() == old(self).source(),
            final(self).cursor() == whitespace_end(old(self).source(), old(self).cursor()),
    {
        while self.at_whitespace()
            invariant
                self.wf(),
                self.source() == old(self).source(),
                whitespace_end(self.source(), self.cursor()) == whitespace_end(
                    old(self).source(),
                    old(self).cursor(),
                ),
            decreases self.source().len() - self.cursor(),
        {
            self.consume_char();
        }
    }

    /// Reads the identifier or keyword that starts at the cursor.
    fn identifier(&mut self) -> (token: Token)
        requires
            old(self).wf(),
            old(self).cursor() < old(self).source().len(),
        ensures
            final(self).wf(),
            final(self).source() == old(self).source(),
            final(self).cursor() == identifier_end(old(self).source(), old(self).cursor() + 1),
            token@ == (TokenView {
                kind: word_kind(
                    old(self).source().subrange(old(self).cursor(), final(self).cursor()),
                ),
                span: span_between(old(self).source(), old(self).cursor(), final(self).cursor()),
            }),
    {
        let start: usize = self.pos;
        let first: usize = self.index;
        self.consume_char();
        while self.at_identifier_part()
            invariant
                self.wf(),
                self.source() == old(self).source(),
                first == old(self).cursor(),
                first < self.cursor(),
                start == byte_offset(self.source(), first as int),
                identifier_end(self.source(), self.cursor()) == identifier_end(
                    old(self).source(),
                    old(self).cursor() + 1,
                ),
            decreases self.source().len() - self.cursor(),
        {
            self.consume_char();
        }
        let span = Span { start, end: self.pos };
        let kind = match keyword_at(&self.chars, first, self.index) {
            Some(k) => TokenKind::Keyword(k),
            None => {
                let mut name = String::new();
                push_chars(&mut name, &self.chars, first, self.index);
                TokenKind::Identifier(name)
            },
        };
        Token { kind, span }
    }

    /// Reads the constant that starts at the cursor.
    fn constant(&mut self) -> (token: Result<Token, LexerError>)
        requires
            old(self).wf(),
            old(self).cursor() < old(self).source().len(),
            is_digit(old(self).source()[old(self).cursor()]),
        ensures
            final(self).wf(),
            final(self).source() == old(self).source(),
            final(self).cursor() == digits_end(old(self).source(), old(self).cursor() + 1),
            item_view(Some(token)) == Some(
                constant_at(old(self).source(), old(self).cursor(), final(self).cursor()),
            ),
    {
        let start: usize = self.pos;
        let first: usize = self.index;
        self.consume_char();
        while self.at_digit()
            invariant
                self.wf(),
                self.source() == old(self).source(),
                first == old(self).cursor(),
                first < self.cursor(),
                start == byte_offset(self.source(), first as int),
                forall|i: int| first <= i < self.cursor() ==> is_digit(#[trigger] self.chars@[i]),
                digits_end(self.source(), self.cursor()) == digits_end(
                    old(self).source(),
                    old(self).cursor() + 1,
                ),
            decreases self.source().len() - self.cursor(),
        {
            self.consume_char();
        }
        if let Some(c) = self.peek_char() {
            if c.is_alphabetic() || c == '_' {
                return Err(
                    LexerError { kind: LexerErrorKind::InvalidConstSuffix, span: Span::single(self.pos()) },
                );
            }
        }
        let span = Span { start, end: self.pos };
        match digits_to_int(&self.chars, first, self.index) {
            Some(n) => Ok(Token { kind: TokenKind::Constant(Const::Int(n)), span }),
            None => Err(LexerError { kind: LexerErrorKind::InvalidIntegerLiteral, span }),
        }
    }

    /// The next token, the error in its place, or `None` at the end of the
    /// source. Each call that hands out a token or an error reads at least
    /// one character, so after at most as many calls as the text has
    /// characters the answer is `None`, and stays so.
    pub fn next(&mut self) -> (item: Option<Result<Token, LexerError>>)
        requires
            old(self).wf(),
        ensures
            final(self).wf(),
            final(self).source() == old(self).source(),
            final(self).cursor() == step(old(self).source(), old(self).cursor()).next,
            item_view(item) == step(old(self).source(), old(self).cursor()).item,
            old(self).cursor() <= final(self).cursor() <= final(self).source().len(),
            item is Some ==> old(self).cursor() < final(self).cursor(),
            item is None ==> final(self).cursor() == final(self).source().len(),
    {
        proof {
            lemma_step_advances(self.source(), self.cursor());
        }
        self.skip_ws();
        match self.peek_char() {
            None => None,
            Some(c) => {
                if starts_identifier(c) {
                    Some(Ok(self.identifier()))
                } else if digit(c) {
                    Some(self.constant())
                } else if c == '(' {
                    Some(Ok(self.punctuation(TokenKind::OpenParenthesis)))
                } else if c == ')' {
                    Some(Ok(self.punctuation(TokenKind::CloseParenthesis)))
                } else if c == '{' {
                    Some(Ok(self.punctuation(TokenKind::OpenBrace)))
                } else if c == '}' {
                    Some(Ok(self.punctuation(TokenKind::CloseBrace)))
                } else if c == ';' {
                    Some(Ok(self.punctuation(TokenKind::Semicolon)))
                } else {
                    let span = Span::single(self.pos());
                    self.consume_char();
                    Some(Err(LexerError { kind: LexerErrorKind::UnexpectedCharacter(c), span }))
                }
            },
        }
    }

    /// Takes the punctuation character at the cursor as a token of `kind`.
    fn punctuation(&mut self, kind: TokenKind) -> (token: Token)
        requires
            old(self).wf(),
            old(self).cursor() < old(self).source().len(),
            punctuation_kind(old(self).source()[old(self).cursor()]) == Some(kind@),
        ensures
            final(self).wf(),
            final(self).source() == old(self).source(),
            final(self).cursor() == old(self).cursor() + 1,
            token@ == (TokenView {
                kind: kind@,
                span: span_between(old(self).source(), old(self).cursor(), old(self).cursor() + 1),
            }),
    {
        let start: usize = self.pos();
        self.consume_char();
        Token { kind, span: Span { start, end: self.pos() } }
    }
}


/// A step that hands out a token or an error moves the cursor forward, one
/// that finds the end of the text leaves it there, and no step moves it out
/// of the text.
pub proof fn lemma_step_advances(s: Seq<char>, i: int)
    requires
        0 <= i <= s.len(),
    ensures
        i <= step(s, i).next <= s.len(),
        step(s, i).item is Some ==> i < step(s, i).next,
        step(s, i).item is None ==> step(s, i).next == s.len(),
        step(s, s.len() as int).item is None,
{
    lemma_whitespace_end_bounds(s, i);
    let j = whitespace_end(s, i);
    if j < s.len() {
        lemma_identifier_end_bounds(s, j + 1);
        lemma_digits_end_bounds(s, j + 1);
    }
}

/// The span of a token is the bytes of the characters that were read for
/// it, from behind the whitespace to where the step ends: it is not empty,
/// and it lies between where the step starts and the end of the text.
pub proof fn lemma_step_span(s: Seq<char>, i: int)
    requires
        0 <= i <= s.len(),
        byte_len(s) < usize::MAX,
        step(s, i).item is Some,
        step(s, i).item->0 is Ok,
    ensures
        i <= whitespace_end(s, i) < step(s, i).next <= s.len(),
        step(s, i).item->0->Ok_0.span == span_between(s, whitespace_end(s, i), step(s, i).next),
        byte_offset(s, i) <= step(s, i).item->0->Ok_0.span.start,
        step(s, i).item->0->Ok_0.span.start < step(s, i).item->0->Ok_0.span.end,
        step(s, i).item->0->Ok_0.span.end == byte_offset(s, step(s, i).next),
        step(s, i).item->0->Ok_0.span.end <= byte_len(s),
{
    let j = whitespace_end(s, i);
    let k = step(s, i).next;
    lemma_whitespace_end_bounds(s, i);
    lemma_step_advances(s, i);
    lemma_identifier_end_bounds(s, j + 1);
    lemma_digits_end_bounds(s, j + 1);
    assert(j < k <= s.len());
    lemma_byte_offset_monotonic(s, i, j);
    lemma_byte_offset_step(s, j);
    lemma_byte_offset_monotonic(s, j + 1, k);
    lemma_byte_offset_bound(s, k);
}

/// All the tokens from the character of index `i` on, or the first lexical
/// error.
pub open spec fn tokens_from(s: Seq<char>, i: int) -> Result<Seq<TokenView>, LexerError>
    decreases s.len() - i,
    when 0 <= i <= s.len()
    via tokens_from_decreases
{
    let st = step(s, i);
    match st.item {
        None => Ok(Seq::empty()),
        Some(Err(e)) => Err(e),
        Some(Ok(token)) => match tokens_from(s, st.next) {
            Ok(rest) => Ok(seq![token] + rest),
            Err(e) => Err(e),
        },
    }
}

#[via_fn]
proof fn tokens_from_decreases(s: Seq<char>, i: int) {
    lemma_step_advances(s, i);
}

/// All the tokens of a source text, or its first lexical error.
pub open spec fn tokens_of(s: Seq<char>) -> Result<Seq<TokenView>, LexerError> {
    tokens_from(s, 0)
}

/// The mathematical value of a list of tokens.
pub open spec fn tokens_view(tokens: Seq<Token>) -> Seq<TokenView> {
    tokens.map_values(|t: Token| t@)
}

/// The mathematical value of what [`tokenize`] returns.
pub open spec fn tokens_result_view(r: Result<Vec<Token>, LexerError>) -> Result<
    Seq<TokenView>,
    LexerError,
> {
    match r {
        Ok(list) => Ok(tokens_view(list@)),
        Err(e) => Err(e),
    }
}

/// Reads `src` to its end, or to its first lexical error.
pub fn tokenize(src: &str) -> (tokens: Result<Vec<Token>, LexerError>)
    requires
        byte_len(src@) < usize::MAX,
    ensures
        tokens_result_view(tokens) == tokens_of(src@),
{
    let mut lexer = Lexer::new(src);
    let mut list: Vec<Token> = Vec::new();
    loop
        invariant
            lexer.wf(),
            lexer.source() == src@,
            match tokens_from(src@, lexer.cursor()) {
                Ok(rest) => tokens_of(src@) == Ok::<Seq<TokenView>, LexerError>(
                    tokens_view(list@) + rest,
                ),
                Err(e) => tokens_of(src@) == Err::<Seq<TokenView>, LexerError>(e),
            },
        decreases src@.len() - lexer.cursor(),
    {
        proof {
            lexer.lemma_cursor_in_source();
            lemma_step_advances(src@, lexer.cursor());
        }
        let ghost before = list@;
        match lexer.next() {
            None => {
                assert(tokens_view(list@) + Seq::<TokenView>::empty() =~= tokens_view(list@));
                return Ok(list);
            },
            Some(Err(e)) => {
                return Err(e);
            },
            Some(Ok(token)) => {
                list.push(token);
                proof {
                    lexer.lemma_cursor_in_source();
                    assert(tokens_view(list@) =~= tokens_view(before) + seq![token@]);
                    if let Ok(rest) = tokens_from(src@, lexer.cursor()) {
                        assert(tokens_view(list@) + rest =~= tokens_view(before) + (seq![token@]
                            + rest));
                    }
                }
            },
        }
    }
}

/// Lexing is a function of the text alone: whatever two runs of
/// [`tokenize`] over equal texts return, it is the same tokens with the same
/// spans, or the same error.
pub proof fn lemma_tokenize_deterministic(
    first_src: Seq<char>,
    second_src: Seq<char>,
    first: Result<Vec<Token>, LexerError>,
    second: Result<Vec<Token>, LexerError>,
)
    requires
        first_src == second_src,
        tokens_result_view(first) == tokens_of(first_src),
        tokens_result_view(second) == tokens_of(second_src),
    ensures
        tokens_result_view(first) == tokens_result_view(second),
{
}

/// Two lexers at the same place of equal texts hand out the same item and
/// go on from the same place, whatever was read before.
pub proof fn lemma_next_deterministic(
    first: Lexer,
    second: Lexer,
    first_item: Option<Result<Token, LexerError>>,
    second_item: Option<Result<Token, LexerError>>,
    first_after: Lexer,
    second_after: Lexer,
)
    requires
        first.source() == second.source(),
        first.cursor() == second.cursor(),
        item_view(first_item) == step(first.source(), first.cursor()).item,
        item_view(second_item) == step(second.source(), second.cursor()).item,
        first_after.cursor() == step(first.source(), first.cursor()).next,
        second_after.cursor() == step(second.source(), second.cursor()).next,
    ensures
        item_view(first_item) == item_view(second_item),
        first_after.cursor() == second_after.cursor(),
{
}

/// The tokens of a text lie in it one behind the other: each span is not
/// empty, none starts before the place where lexing started or ends behind
/// the text, and each ends where the next starts, or before.
pub proof fn lemma_tokens_in_order(s: Seq<char>, i: int)
    requires
        0 <= i <= s.len(),
        byte_len(s) < usize::MAX,
        tokens_from(s, i) is Ok,
    ensures
        forall|a: int|
            0 <= a < tokens_from(s, i)->Ok_0.len() ==> byte_offset(s, i) <= (
            #[trigger] tokens_from(s, i)->Ok_0[a]).span.start && tokens_from(
                s,
                i,
            )->Ok_0[a].span.start < tokens_from(s, i)->Ok_0[a].span.end && tokens_from(
                s,
                i,
            )->Ok_0[a].span.end <= byte_len(s),
        forall|a: int, b: int|
            0 <= a < b < tokens_from(s, i)->Ok_0.len() ==> (#[trigger] tokens_from(
                s,
                i,
            )->Ok_0[a]).span.end <= (#[trigger] tokens_from(s, i)->Ok_0[b]).span.start,
    decreases s.len() - i,
{
    let tokens = tokens_from(s, i)->Ok_0;
    lemma_step_advances(s, i);
    match step(s, i).item {
        Some(Ok(token)) => {
            let k = step(s, i).next;
            let rest = tokens_from(s, k)->Ok_0;
            assert(tokens == seq![token] + rest);
            lemma_step_span(s, i);
            lemma_tokens_in_order(s, k);
            lemma_byte_offset_monotonic(s, i, k);
            assert forall|a: int| 0 <= a < tokens.len() implies byte_offset(s, i) <= (
            #[trigger] tokens[a]).span.start && tokens[a].span.start < tokens[a].span.end
                && tokens[a].span.end <= byte_len(s) by {
                if a > 0 {
                    assert(tokens[a] == rest[a - 1]);
                }
            }
            assert forall|a: int, b: int| 0 <= a < b < tokens.len() implies (
            #[trigger] tokens[a]).span.end <= (#[trigger] tokens[b]).span.start by {
                assert(tokens[b] == rest[b - 1]);
                if a > 0 {
                    assert(tokens[a] == rest[a - 1]);
                }
            }
        },
        _ => {},
    }
}

/// The index at which the lexer stands after `n` steps from index `i`.
pub open spec fn cursor_after(s: Seq<char>, i: int, n: nat) -> int
    decreases n,
{
    if n == 0 {
        i
    } else {
        cursor_after(s, step(s, i).next, (n - 1) as nat)
    }
}

/// Lexing comes to an end, whatever errors lie on the way: from index `i`,
/// one of the first `s.len() - i + 1` steps finds the end of the text.
pub proof fn lemma_lexing_ends(s: Seq<char>, i: int)
    requires
        0 <= i <= s.len(),
    ensures
        exists|n: nat|
            n <= s.len() - i && 0 <= cursor_after(s, i, n) <= s.len() && (#[trigger] step(
                s,
                cursor_after(s, i, n),
            )).item is None,
    decreases s.len() - i,
{
    lemma_step_advances(s, i);
    if step(s, i).item is None {
        assert(cursor_after(s, i, 0) == i);
    } else {
        let k = step(s, i).next;
        lemma_lexing_ends(s, k);
        let m = choose|m: nat|
            m <= s.len() - k && 0 <= cursor_after(s, k, m) <= s.len() && (#[trigger] step(
                s,
                cursor_after(s, k, m),
            )).item is None;
        assert(cursor_after(s, i, m + 1) == cursor_after(s, k, m));
    }
}

} // verus!
