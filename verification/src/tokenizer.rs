//! The token abstraction and stream layer: a pluggable token contract plus
//! a lookahead-buffered stream built either from a live cursor-driven
//! tokenizer or from a pre-materialized token sequence.

use vstd::prelude::*;
use crate::source::{Src, Span};
use crate::parser::{Parser, ws_end};

verus! {

/// A character cursor over one source, shared by the token layer.
pub struct SrcCursor<'s> {
    pub src: &'s Src,
    pub pos: usize,
}

impl<'s> SrcCursor<'s> {
    /// The cursor never rests past the end of its source.
    pub open spec fn wf(&self) -> bool {
        self.pos <= self.src@.len() && self.src@.len() <= usize::MAX
    }

    pub fn new(src: &'s Src) -> (r: SrcCursor<'s>)
        ensures
            r.wf(),
            r.src == src,
            r.pos == 0,
    {
        proof {
            src.lemma_len_bound();
        }
        SrcCursor { src, pos: 0 }
    }

    pub fn peek(&self) -> (r: Option<char>)
        ensures
            r == self.src.get_spec(self.pos as int),
    {
        self.src.get(self.pos)
    }

    /// The character `n` places ahead of the cursor, if any.
    pub fn peek_n(&self, n: usize) -> (r: Option<char>)
        requires
            self.wf(),
        ensures
            r == self.src.get_spec(self.pos + n),
    {
        if n <= usize::MAX - self.pos {
            self.src.get(self.pos + n)
        } else {
            proof {
                assert(self.pos + n > self.src@.len());
            }
            None
        }
    }

    /// Consumes one character; does not advance at end of input.
    pub fn next(&mut self) -> (r: Option<char>)
        requires
            old(self).wf(),
        ensures
            final(self).wf(),
            final(self).src == old(self).src,
            old(self).pos < old(self).src@.len() ==> r == Some(
                old(self).src@[old(self).pos as int],
            ) && final(self).pos == old(self).pos + 1,
            old(self).pos >= old(self).src@.len() ==> r is None && final(self).pos == old(self).pos,
    {
        let r = self.src.get(self.pos);
        if r.is_some() {
            self.pos = self.pos + 1;
        }
        r
    }
}

/// Skips `//` line comments and whitespace in a source stream, exactly as
/// the character-level parser does before each word.
pub fn skip_c_like_comments(cursor: &mut SrcCursor<'_>)
    requires
        old(cursor).wf(),
    ensures
        final(cursor).wf(),
        final(cursor).src == old(cursor).src,
        final(cursor).pos == ws_end(old(cursor).src@, old(cursor).pos as int),
{
    let mut parser = Parser::new(cursor.src);
    parser.goto(cursor.pos);
    parser.skip_ws();
    cursor.pos = parser.pos();
}

/// The contract a concrete lexical-token type gives the stream layer: it
/// can produce the next token from a cursor, construct its own end-of-input
/// sentinel, and report end-of-input and error status.
pub trait Token: Sized {
    /// Whether this token is the end-of-input sentinel.
    spec fn spec_eof(&self) -> bool;

    /// Whether this token represents a malformed piece of input.
    spec fn spec_error(&self) -> bool;

    /// Reads the next token. Errors and end of input are represented as
    /// tokens as well; anything but the sentinel consumes input, so
    /// tokenizing always advances.
    fn next(cursor: &mut SrcCursor<'_>) -> (t: Self)
        requires
            old(cursor).wf(),
        ensures
            final(cursor).wf(),
            final(cursor).src == old(cursor).src,
            final(cursor).pos >= old(cursor).pos,
            !t.spec_eof() ==> final(cursor).pos > old(cursor).pos,
    ;

    /// A fresh end-of-input sentinel.
    fn new_eof() -> (t: Self)
        ensures
            t.spec_eof(),
    ;

    fn is_eof(&self) -> (r: bool)
        ensures
            r == self.spec_eof(),
    ;

    /// The expected final token's name, if this sentinel carries one.
    fn get_eof_name(&self) -> Option<&str>;

    fn is_error(&self) -> (r: bool)
        ensures
            r == self.spec_error(),
    ;

    /// The error text, if this token represents one.
    fn get_error(&self) -> Option<&str>;

    /// An exact copy of this token.
    fn dup(&self) -> (t: Self)
        ensures
            t == *self,
    ;

    /// Whether this token closes a braced group.
    fn is_brace_close(&self) -> bool;
}

/// A live tokenizer: reads tokens from a cursor over one source.
pub struct Tokenizer<'s, T: Token> {
    src: &'s Src,
    cursor: SrcCursor<'s>,
    _marker: core::marker::PhantomData<T>,
}

impl<'s, T: Token> Tokenizer<'s, T> {
    pub closed spec fn wf(&self) -> bool {
        self.cursor.wf()
    }

    /// The characters of the source under the tokenizer's cursor.
    pub closed spec fn text_spec(&self) -> Seq<char> {
        self.cursor.src@
    }

    /// The cursor's offset into the source.
    pub closed spec fn pos_spec(&self) -> int {
        self.cursor.pos as int
    }

    /// A tokenizer whose cursor stands at offset 0 of `src`, so successive
    /// calls of `next` produce exactly the tokens the token contract reads
    /// from the start of the source, in order.
    pub fn new(src: &'s Src) -> (r: Tokenizer<'s, T>)
        ensures
            r.wf(),
            r.text_spec() == src@,
            r.pos_spec() == 0,
    {
        Tokenizer { src, cursor: SrcCursor::new(src), _marker: core::marker::PhantomData }
    }

    /// One call of the token contract's `next` on the current cursor state:
    /// no buffering, filtering or reordering of its own.
    pub fn next(&mut self) -> (t: T)
        requires
            old(self).wf(),
        ensures
            final(self).wf(),
            final(self).text_spec() == old(self).text_spec(),
            final(self).pos_spec() >= old(self).pos_spec(),
            !t.spec_eof() ==> final(self).pos_spec() > old(self).pos_spec(),
    {
        T::next(&mut self.cursor)
    }
}

/// A pre-materialized token sequence, used when re-parsing the contents of
/// a delimited group as an independent sub-stream; hands out the stored
/// tokens in order and then end-of-input sentinels.
pub struct TokenTree<T: Token> {
    src_id: usize,
    items: Vec<T>,
    iter_pos: usize,
    eof_start: usize,
    eof_end: usize,
}

impl<T: Token> TokenTree<T> {
    pub closed spec fn items_spec(&self) -> Seq<T> {
        self.items@
    }

    pub closed spec fn iter_pos_spec(&self) -> int {
        self.iter_pos as int
    }

    /// A sub-stream over `items`, reporting `eof_span` as the place where
    /// the group ended.
    pub fn new(src_id: usize, items: Vec<T>, eof_span: Span) -> (r: TokenTree<T>)
        ensures
            r.items_spec() == items@,
            r.iter_pos_spec() == 0,
    {
        TokenTree {
            src_id,
            items,
            iter_pos: 0,
            eof_start: eof_span.start,
            eof_end: eof_span.end,
        }
    }

    /// The next stored token, exactly and in order, or a fresh end-of-input
    /// sentinel once the stored tokens are exhausted; at that point the
    /// stream state no longer changes.
    pub fn next(&mut self) -> (t: T)
        ensures
            final(self).items_spec() == old(self).items_spec(),
            old(self).iter_pos_spec() < old(self).items_spec().len() ==> final(self).iter_pos_spec() == old(self).iter_pos_spec() + 1 && t == old(self).items_spec()[old(self).iter_pos_spec()],
            old(self).iter_pos_spec() >= old(self).items_spec().len() ==> final(self).iter_pos_spec() == old(self).iter_pos_spec() && t.spec_eof(),
    {
        if self.iter_pos < self.items.len() {
            let t = self.items[self.iter_pos].dup();
            self.iter_pos = self.iter_pos + 1;
            t
        } else {
            T::new_eof()
        }
    }
}

/// Where a stream's tokens come from: a live tokenizer or a stored group.
pub enum TokenSource<'s, T: Token> {
    Live(Tokenizer<'s, T>),
    Tree(TokenTree<T>),
}

impl<'s, T: Token> TokenSource<'s, T> {
    pub open spec fn wf(&self) -> bool {
        match self {
            TokenSource::Live(t) => t.wf(),
            TokenSource::Tree(_) => true,
        }
    }

    pub fn next(&mut self) -> (t: T)
        requires
            old(self).wf(),
        ensures
            final(self).wf(),
    {
        match self {
            TokenSource::Live(tz) => tz.next(),
            TokenSource::Tree(tt) => tt.next(),
        }
    }
}

/// A lookahead-buffered token stream over either source kind. It tracks
/// whether the most recently consumed token closed a braced group, for
/// layout-sensitive rules.
pub struct TokenStream<'s, T: Token, const LOOKAHEAD: usize> {
    iter: TokenSource<'s, T>,
    peek: Vec<T>,
    start_of_last_token: usize,
    last_was_braced: bool,
}

impl<'s, T: Token, const LOOKAHEAD: usize> TokenStream<'s, T, LOOKAHEAD> {
    /// The buffer never holds more than the declared lookahead.
    pub closed spec fn wf(&self) -> bool {
        self.iter.wf() && self.peek@.len() <= LOOKAHEAD
    }

    /// The tokens read ahead of the consumer, oldest first.
    pub closed spec fn buffer_spec(&self) -> Seq<T> {
        self.peek@
    }

    /// The stream's underlying token source.
    pub closed spec fn source_spec(&self) -> TokenSource<'s, T> {
        self.iter
    }

    pub fn new(iter: TokenSource<'s, T>) -> (r: TokenStream<'s, T, LOOKAHEAD>)
        requires
            iter.wf(),
        ensures
            r.wf(),
            !r.last_was_braced_spec(),
            r.buffer_spec().len() == 0,
            r.source_spec() == iter,
    {
        TokenStream { iter, peek: Vec::new(), start_of_last_token: 0, last_was_braced: false }
    }

    pub closed spec fn last_was_braced_spec(&self) -> bool {
        self.last_was_braced
    }

    /// Whether the most recently consumed token closed a braced group.
    pub fn last_was_braced(&self) -> (r: bool)
        ensures
            r == self.last_was_braced_spec(),
    {
        self.last_was_braced
    }

    /// Consumes one token: the oldest buffered one if any is buffered, and
    /// only otherwise one drawn from the source.
    pub fn next(&mut self) -> (t: T)
        requires
            old(self).wf(),
        ensures
            final(self).wf(),
            old(self).buffer_spec().len() > 0 ==> t == old(self).buffer_spec()[0] && final(self).buffer_spec() == old(self).buffer_spec().drop_first() && final(self).source_spec()
                == old(self).source_spec(),
            old(self).buffer_spec().len() == 0 ==> final(self).buffer_spec() == old(self).buffer_spec(),
    {
        let t = if self.peek.len() > 0 {
            let t = self.peek.remove(0);
            proof {
                assert(self.buffer_spec() =~= old(self).buffer_spec().drop_first());
            }
            t
        } else {
            self.iter.next()
        };
        self.last_was_braced = t.is_brace_close();
        t
    }

    /// The next token, inspected without consuming it: drawn from the
    /// source into the buffer only when the buffer is empty.
    pub fn peek_next(&mut self) -> (t: &T)
        requires
            old(self).wf(),
            LOOKAHEAD >= 1,
        ensures
            final(self).wf(),
            final(self).buffer_spec().len() > 0,
            *t == final(self).buffer_spec()[0],
            old(self).buffer_spec().len() > 0 ==> final(self).buffer_spec() == old(self).buffer_spec() && final(self).source_spec() == old(self).source_spec(),
            final(self).last_was_braced_spec() == old(self).last_was_braced_spec(),
    {
        if self.peek.len() == 0 {
            let t = self.iter.next();
            self.peek.push(t);
        }
        &self.peek[0]
    }
}

/// Reads every token of one source, up to but not including the
/// end-of-input sentinel.
pub fn tokenize<T: Token>(src: &Src) -> (r: Vec<T>)
    ensures
        forall|i: int| 0 <= i < r@.len() ==> !(#[trigger] r@[i]).spec_eof(),
{
    let mut cursor = SrcCursor::new(src);
    let mut out: Vec<T> = Vec::new();
    let mut done = false;
    while !done
        invariant
            cursor.wf(),
            forall|i: int| 0 <= i < out@.len() ==> !(#[trigger] out@[i]).spec_eof(),
        decreases cursor.src@.len() - cursor.pos + (if done {
            0int
        } else {
            1int
        }),
    {
        let t = T::next(&mut cursor);
        if t.is_eof() {
            done = true;
        } else {
            out.push(t);
        }
    }
    out
}

/// A basic token: one lexical word, a malformed piece of input, or the
/// end-of-input sentinel; each carries its place in the source.
pub enum BasicToken {
    Word { text: String, span: Span },
    Bad { text: String, span: Span },
    End { expected: Option<String> },
}

impl Token for BasicToken {
    open spec fn spec_eof(&self) -> bool {
        self is End
    }

    open spec fn spec_error(&self) -> bool {
        self is Bad
    }

    fn next(cursor: &mut SrcCursor<'_>) -> (t: Self) {
        let mut parser = Parser::new(cursor.src);
        parser.goto(cursor.pos);
        let ghost p0 = cursor.pos as int;
        if parser.is_eof() {
            cursor.pos = parser.pos();
            proof {
                crate::parser::lemma_ws_end(cursor.src@, p0);
            }
            return BasicToken::End { expected: None };
        }
        let start = parser.pos();
        match parser.next_word("token") {
            Ok(text) => {
                let span = cursor.src.range(start, parser.pos());
                cursor.pos = parser.pos();
                proof {
                    crate::parser::lemma_ws_end(cursor.src@, p0);
                }
                BasicToken::Word { text, span }
            },
            Err(m) => {
                parser.goto(start);
                parser.next();
                let span = cursor.src.range(start, parser.pos());
                cursor.pos = parser.pos();
                proof {
                    crate::parser::lemma_ws_end(cursor.src@, p0);
                }
                BasicToken::Bad { text: m.info, span }
            },
        }
    }

    fn new_eof() -> (t: Self) {
        BasicToken::End { expected: None }
    }

    fn is_eof(&self) -> (r: bool) {
        matches!(self, BasicToken::End { .. })
    }

    fn get_eof_name(&self) -> Option<&str> {
        match self {
            BasicToken::End { expected: Some(s) } => Some(s.as_str()),
            _ => None,
        }
    }

    fn is_error(&self) -> (r: bool) {
        matches!(self, BasicToken::Bad { .. })
    }

    fn get_error(&self) -> Option<&str> {
        match self {
            BasicToken::Bad { text, .. } => Some(text.as_str()),
            _ => None,
        }
    }

    fn dup(&self) -> (t: Self) {
        match self {
            BasicToken::Word { text, span } => BasicToken::Word {
                text: text.clone(),
                span: *span,
            },
            BasicToken::Bad { text, span } => BasicToken::Bad { text: text.clone(), span: *span },
            BasicToken::End { expected: Some(s) } => BasicToken::End { expected: Some(s.clone()) },
            BasicToken::End { expected: None } => BasicToken::End { expected: None },
        }
    }

    fn is_brace_close(&self) -> bool {
        match self {
            BasicToken::Word { text, .. } => *text == "}".to_owned(),
            _ => false,
        }
    }
}

} // verus!
