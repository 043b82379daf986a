//! Diagnostics: an error shown to a reader as the line and column where it
//! lies, the source line itself, and an underline below the bytes that the
//! error's span covers.
use vstd::prelude::*;
use vstd::string::StringExecFns;
use crate::error::{LexerError, ParseError};
use crate::lexer::{lemma_step_span, span_between, step, whitespace_end};
use crate::span::Span;
use crate::text::{
    byte_len, byte_offset, char_width, chars_of, decimal, expand_tabs, lemma_byte_offset_bound,
    lemma_byte_offset_monotonic, lemma_byte_offset_step, push_decimal, push_expanded,
    push_marks, repeated,
};

verus! {

/// The number of characters of `s` that start before the byte offset `b`.
/// For an offset at which a character starts this is that character's
/// index, and for one at or behind the end of the text it is the text's
/// length.
pub open spec fn chars_before(s: Seq<char>, b: int) -> int
    decreases s.len(),
{
    if s.len() == 0 {
        0
    } else {
        chars_before(s.drop_last(), b) + if byte_len(s.drop_last()) < b {
            1int
        } else {
            0int
        }
    }
}

/// The index at which the line of the character of index `a` starts: just
/// behind the nearest newline in front of `a`, or the start of the text.
pub open spec fn line_start(s: Seq<char>, a: int) -> int
    decreases a,
{
    if a <= 0 || a > s.len() {
        0
    } else if s[a - 1] == '\n' {
        a
    } else {
        line_start(s, a - 1)
    }
}

/// The index at which the line that holds index `b` ends: that of the
/// nearest newline at or behind `b`, or the end of the text.
pub open spec fn line_end(s: Seq<char>, b: int) -> int
    decreases s.len() - b,
{
    if b < 0 || b >= s.len() {
        s.len() as int
    } else if s[b] == '\n' {
        b
    } else {
        line_end(s, b + 1)
    }
}

/// The number of newlines in `s`.
pub open spec fn newlines(s: Seq<char>) -> nat
    decreases s.len(),
{
    if s.len() == 0 {
        0
    } else {
        newlines(s.drop_last()) + if s.last() == '\n' {
            1nat
        } else {
            0nat
        }
    }
}

/// Where a span lies in a text, in indices of characters.
pub struct Place {
    /// The first character that the span covers.
    pub first: int,
    /// The index behind the last character that the span covers.
    pub last: int,
    /// The start of the line that holds `first`.
    pub line_from: int,
    /// The end of the line that holds `last`.
    pub line_to: int,
}

/// The place of `span` in `s`. A span that ends before it starts covers
/// nothing.
pub open spec fn locate(s: Seq<char>, span: Span) -> Place {
    let first = chars_before(s, span.start as int);
    let until = chars_before(s, span.end as int);
    let last = if until < first {
        first
    } else {
        until
    };
    Place { first, last, line_from: line_start(s, first), line_to: line_end(s, last) }
}

/// The text that `span` covers in `s`.
pub open spec fn spanned(s: Seq<char>, span: Span) -> Seq<char> {
    s.subrange(locate(s, span).first, locate(s, span).last)
}

/// The number of the line on which `span` starts, counted from 1.
pub open spec fn line_number(s: Seq<char>, span: Span) -> nat {
    1 + newlines(s.take(locate(s, span).line_from))
}

/// The column at which `span` starts: the number of characters between the
/// start of the line and the span, and 1 where there is none.
pub open spec fn column(s: Seq<char>, span: Span) -> nat {
    let p = locate(s, span);
    if p.first - p.line_from < 1 {
        1
    } else {
        (p.first - p.line_from) as nat
    }
}

/// The length of the underline: one caret for each character that the
/// spanned text has once its tabs are expanded, and one where it has none.
pub open spec fn underline_len(s: Seq<char>, span: Span) -> nat {
    let n = expand_tabs(spanned(s, span)).len();
    if n < 1 {
        1
    } else {
        n
    }
}

/// The underline below the spanned text.
pub open spec fn underline(s: Seq<char>, span: Span) -> Seq<char> {
    repeated('^', underline_len(s, span))
}

/// The spaces that bring the underline below the first character of the
/// span: as many as the line has characters in front of it, tabs expanded.
pub open spec fn padding(s: Seq<char>, span: Span) -> Seq<char> {
    let p = locate(s, span);
    repeated(' ', expand_tabs(s.subrange(p.line_from, p.first)).len())
}

/// The whole diagnostic, in three lines: where, the source line with its
/// tabs expanded, and the underline followed by the message.
pub open spec fn diagnostic_text(s: Seq<char>, span: Span, message: Seq<char>) -> Seq<char> {
    let p = locate(s, span);
    "line "@ + decimal(line_number(s, span)) + ", col "@ + decimal(column(s, span)) + "\n"@
        + expand_tabs(s.subrange(p.line_from, p.line_to)) + "\n"@ + padding(s, span) + underline(
        s,
        span,
    ) + " "@ + message + "\n"@
}

/// A text has at least one byte for each character.
pub proof fn lemma_len_le_byte_len(s: Seq<char>)
    ensures
        s.len() <= byte_len(s),
    decreases s.len(),
{
    if s.len() > 0 {
        lemma_len_le_byte_len(s.drop_last());
        lemma_byte_offset_step(s, s.len() - 1);
        assert(s.take(s.len() as int) =~= s);
        assert(s.take(s.len() - 1) =~= s.drop_last());
    }
}

/// The count of characters that start before `b` lies within the text.
pub proof fn lemma_chars_before_bounds(s: Seq<char>, b: int)
    ensures
        0 <= chars_before(s, b) <= s.len(),
    decreases s.len(),
{
    if s.len() > 0 {
        lemma_chars_before_bounds(s.drop_last(), b);
    }
}

/// Once a character starts at or behind `b`, no later one starts before it.
pub proof fn lemma_chars_before_stops(s: Seq<char>, i: int, k: int, b: int)
    requires
        0 <= i <= k <= s.len(),
        byte_offset(s, i) >= b,
    ensures
        chars_before(s.take(k), b) == chars_before(s.take(i), b),
    decreases k - i,
{
    if i < k {
        lemma_chars_before_stops(s, i, k - 1, b);
        lemma_byte_offset_monotonic(s, i, k - 1);
        assert(s.take(k).drop_last() =~= s.take(k - 1));
    }
}

/// The number of characters of `chars` that start before the byte offset
/// `b`.
fn index_of_offset(chars: &Vec<char>, b: usize) -> (index: usize)
    requires
        byte_len(chars@) < usize::MAX,
    ensures
        index == chars_before(chars@, b as int),
        index <= chars.len(),
{
    let mut i: usize = 0;
    let mut offset: usize = 0;
    proof {
        lemma_byte_offset_bound(chars@, 0);
    }
    while i < chars.len() && offset < b
        invariant
            i <= chars.len(),
            byte_len(chars@) < usize::MAX,
            offset == byte_offset(chars@, i as int),
            i == chars_before(chars@.take(i as int), b as int),
        decreases chars.len() - i,
    {
        proof {
            lemma_byte_offset_step(chars@, i as int);
            assert(chars@.take(i + 1).drop_last() =~= chars@.take(i as int));
        }
        offset = offset + char_width(chars[i]);
        i += 1;
    }
    proof {
        if i < chars.len() {
            lemma_chars_before_stops(chars@, i as int, chars@.len() as int, b as int);
        }
        assert(chars@.take(chars@.len() as int) =~= chars@);
    }
    i
}

/// The index at which the line of the character of index `a` starts.
fn line_start_of(chars: &Vec<char>, a: usize) -> (index: usize)
    requires
        a <= chars.len(),
    ensures
        index == line_start(chars@, a as int),
        index <= a,
{
    let mut i: usize = a;
    while i > 0 && chars[i - 1] != '\n'
        invariant
            i <= a <= chars.len(),
            line_start(chars@, i as int) == line_start(chars@, a as int),
        decreases i,
    {
        i -= 1;
    }
    i
}

/// The index at which the line that holds index `b` ends.
fn line_end_of(chars: &Vec<char>, b: usize) -> (index: usize)
    requires
        b <= chars.len(),
    ensures
        index == line_end(chars@, b as int),
        b <= index <= chars.len(),
{
    let mut i: usize = b;
    while i < chars.len() && chars[i] != '\n'
        invariant
            b <= i <= chars.len(),
            line_end(chars@, i as int) == line_end(chars@, b as int),
        decreases chars.len() - i,
    {
        i += 1;
    }
    i
}

/// The number of newlines in `chars[..to]`.
fn count_newlines(chars: &Vec<char>, to: usize) -> (count: usize)
    requires
        to <= chars.len(),
    ensures
        count == newlines(chars@.take(to as int)),
        count <= to,
{
    let mut i: usize = 0;
    let mut count: usize = 0;
    while i < to
        invariant
            i <= to <= chars.len(),
            count <= i,
            count == newlines(chars@.take(i as int)),
        decreases to - i,
    {
        proof {
            assert(chars@.take(i + 1).drop_last() =~= chars@.take(i as int));
        }
        if chars[i] == '\n' {
            count += 1;
        }
        i += 1;
    }
    count
}

/// The diagnostic for an error at `span` in `src` that says `message`.
pub fn render_diagnostic(src: &str, span: &Span, message: &str) -> (out: String)
    requires
        byte_len(src@) < usize::MAX,
    ensures
        out@ == diagnostic_text(src@, *span, message@),
{
    let chars = chars_of(src);
    proof {
        lemma_len_le_byte_len(chars@);
    }
    let first: usize = index_of_offset(&chars, span.start);
    let until: usize = index_of_offset(&chars, span.end);
    let last: usize = if until < first {
        first
    } else {
        until
    };
    let line_from: usize = line_start_of(&chars, first);
    let line_to: usize = line_end_of(&chars, last);
    let line_no: usize = 1 + count_newlines(&chars, line_from);
    let col: usize = if first - line_from < 1 {
        1
    } else {
        first - line_from
    };
    let mut out = String::new();
    out.append("line ");
    push_decimal(&mut out, line_no as u64);
    out.append(", col ");
    push_decimal(&mut out, col as u64);
    out.append("\n");
    push_expanded(&mut out, &chars, line_from, line_to);
    out.append("\n");
    push_marks(&mut out, &chars, line_from, first, ' ');
    if last == first {
        out.push('^');
        proof {
            assert(spanned(src@, *span) =~= Seq::<char>::empty());
            assert(seq!['^'] =~= underline(src@, *span));
        }
    } else {
        push_marks(&mut out, &chars, first, last, '^');
        proof {
            lemma_expand_tabs_len(spanned(src@, *span));
        }
    }
    out.append(" ");
    out.append(message);
    out.append("\n");
    assert(out@ =~= diagnostic_text(src@, *span, message@));
    out
}

impl LexerError {
    /// The diagnostic for this error in `src`.
    pub fn render(&self, src: &str) -> (out: String)
        requires
            byte_len(src@) < usize::MAX,
        ensures
            out@ == diagnostic_text(src@, self.span, self.message_text()),
    {
        let message = self.message();
        render_diagnostic(src, self.span(), message.as_str())
    }
}

impl ParseError {
    /// The diagnostic for this error in `src`.
    pub fn render(&self, src: &str) -> (out: String)
        requires
            byte_len(src@) < usize::MAX,
        ensures
            out@ == diagnostic_text(src@, self@.span(), self@.message_text()),
    {
        let message = self.message();
        render_diagnostic(src, self.span(), message.as_str())
    }
}

/// Expanding tabs never makes a text shorter.
pub proof fn lemma_expand_tabs_len(s: Seq<char>)
    ensures
        s.len() <= expand_tabs(s).len(),
    decreases s.len(),
{
    if s.len() > 0 {
        lemma_expand_tabs_len(s.drop_last());
    }
}

/// Every character of a text starts before the text's end.
pub proof fn lemma_chars_before_end(s: Seq<char>, b: int)
    requires
        byte_len(s) <= b,
    ensures
        chars_before(s, b) == s.len(),
    decreases s.len(),
{
    if s.len() > 0 {
        lemma_byte_offset_step(s, s.len() - 1);
        assert(s.take(s.len() as int) =~= s);
        assert(s.take(s.len() - 1) =~= s.drop_last());
        lemma_chars_before_end(s.drop_last(), b);
    }
}

/// In front of the byte at which the character of index `i` starts, there
/// start `i` characters.
pub proof fn lemma_chars_before_offset(s: Seq<char>, i: int)
    requires
        0 <= i <= s.len(),
    ensures
        chars_before(s, byte_offset(s, i) as int) == i,
{
    let b = byte_offset(s, i) as int;
    lemma_chars_before_stops(s, i, s.len() as int, b);
    assert(s.take(s.len() as int) =~= s);
    lemma_chars_before_end(s.take(i), b);
}

/// One byte further on, at most one more character has started.
pub proof fn lemma_chars_before_next_byte(s: Seq<char>, b: int)
    ensures
        chars_before(s, b) <= chars_before(s, b + 1) <= chars_before(s, b) + 1,
        byte_len(s) <= b ==> chars_before(s, b + 1) == chars_before(s, b),
    decreases s.len(),
{
    if s.len() > 0 {
        lemma_chars_before_next_byte(s.drop_last(), b);
        lemma_byte_offset_step(s, s.len() - 1);
        assert(s.take(s.len() as int) =~= s);
        assert(s.take(s.len() - 1) =~= s.drop_last());
    }
}

/// The later the byte, the more characters start before it.
pub proof fn lemma_chars_before_monotonic(s: Seq<char>, b: int, c: int)
    requires
        b <= c,
    ensures
        chars_before(s, b) <= chars_before(s, c),
    decreases s.len(),
{
    if s.len() > 0 {
        lemma_chars_before_monotonic(s.drop_last(), b, c);
    }
}

/// The span of the characters `s[i..j]` covers just these characters.
pub proof fn lemma_spanned_between(s: Seq<char>, i: int, j: int)
    requires
        0 <= i <= j <= s.len(),
        byte_len(s) <= usize::MAX,
    ensures
        spanned(s, span_between(s, i, j)) == s.subrange(i, j),
{
    lemma_byte_offset_bound(s, i);
    lemma_byte_offset_bound(s, j);
    lemma_chars_before_offset(s, i);
    lemma_chars_before_offset(s, j);
}

/// A span of one byte or none is underlined by exactly one caret, unless
/// the byte is a tab.
pub proof fn lemma_point_underline(s: Seq<char>, span: Span)
    requires
        span.end <= span.start + 1,
        spanned(s, span) != seq!['\t'],
    ensures
        underline(s, span) == seq!['^'],
{
    let text = spanned(s, span);
    lemma_chars_before_bounds(s, span.start as int);
    lemma_chars_before_bounds(s, span.end as int);
    if span.end == span.start + 1 {
        lemma_chars_before_next_byte(s, span.start as int);
    } else {
        lemma_chars_before_monotonic(s, span.end as int, span.start as int);
    }
    assert(text.len() <= 1);
    if text.len() == 1 {
        assert(text.drop_last() =~= Seq::<char>::empty());
        assert(text.last() != '\t') by {
            if text.last() == '\t' {
                assert(text =~= seq!['\t']);
            }
        }
        assert(expand_tabs(text.drop_last()) =~= Seq::<char>::empty());
        assert(expand_tabs(text).len() == 1);
    } else {
        assert(expand_tabs(text).len() == 0);
    }
    assert(underline(s, span) =~= seq!['^']);
}

/// A span that covers at least one character is underlined by one caret for
/// each character of the spanned text, counted after its tabs are expanded,
/// and by nothing else.
pub proof fn lemma_span_underline(s: Seq<char>, span: Span)
    requires
        spanned(s, span).len() >= 1,
    ensures
        underline(s, span) == repeated('^', expand_tabs(spanned(s, span)).len()),
        underline(s, span).len() == expand_tabs(spanned(s, span)).len(),
        underline(s, span).len() >= spanned(s, span).len(),
{
    lemma_expand_tabs_len(spanned(s, span));
}

/// The span of a token covers exactly the characters that were read for
/// it, from behind the whitespace to where the step ends.
pub proof fn lemma_token_span(s: Seq<char>, i: int)
    requires
        0 <= i <= s.len(),
        byte_len(s) < usize::MAX,
        step(s, i).item is Some,
        step(s, i).item->0 is Ok,
    ensures
        spanned(s, step(s, i).item->0->Ok_0.span) == s.subrange(
            whitespace_end(s, i),
            step(s, i).next,
        ),
{
    lemma_step_span(s, i);
    lemma_spanned_between(s, whitespace_end(s, i), step(s, i).next);
}

} // verus!
