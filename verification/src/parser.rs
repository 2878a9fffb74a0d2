//! The character-level cursor and backtracking parser.
//!
//! Every `expect_*` operation that fails leaves the cursor position exactly
//! where its contract says — for the single-character operations that is the
//! position before the attempt — so alternation between grammar rules never
//! double-consumes input.

use vstd::prelude::*;
use crate::source::{Src, Span, Level, Message};
use crate::text::{
    is_space, is_space_ch, is_ident_start, is_ident_start_ch, is_ident_cont, is_ident_cont_ch,
    is_op, is_op_char, is_punct, is_punct_char, append_str, chars_string, str_chars,
};
use crate::pool::NodePool;

verus! {

/// Which character class a maximal run is drawn from.
#[derive(Clone, Copy)]
pub enum Mode {
    /// Identifier-continue characters.
    Ident,
    /// Repetitions of one exact character.
    Same(char),
    /// Operator characters.
    Op,
    /// Everything up to a line break.
    Line,
}

pub open spec fn run_pred(m: Mode, c: char) -> bool {
    match m {
        Mode::Ident => is_ident_cont(c),
        Mode::Same(x) => c == x,
        Mode::Op => is_op(c),
        Mode::Line => c != '\n',
    }
}

/// Whether `c` belongs to the run class `m`.
pub fn mode_pred(m: Mode, c: char) -> (r: bool)
    ensures
        r == run_pred(m, c),
{
    match m {
        Mode::Ident => is_ident_cont_ch(c),
        Mode::Same(x) => c == x,
        Mode::Op => is_op_char(c),
        Mode::Line => c != '\n',
    }
}

/// The first index at or after `i` whose character leaves the class `m`
/// (or the end of the input).
pub open spec fn run_end(s: Seq<char>, i: int, m: Mode) -> int
    decreases s.len() - i,
    when 0 <= i <= s.len()
{
    if i >= s.len() {
        i
    } else if run_pred(m, s[i]) {
        run_end(s, i + 1, m)
    } else {
        i
    }
}

pub proof fn lemma_run_end(s: Seq<char>, i: int, m: Mode)
    requires
        0 <= i <= s.len(),
    ensures
        i <= run_end(s, i, m) <= s.len(),
        forall|k: int| i <= k < run_end(s, i, m) ==> run_pred(m, s[k]),
        run_end(s, i, m) < s.len() ==> !run_pred(m, s[run_end(s, i, m)]),
    decreases s.len() - i,
{
    if i < s.len() && run_pred(m, s[i]) {
        lemma_run_end(s, i + 1, m);
    }
}

pub proof fn lemma_run_end_is(s: Seq<char>, i: int, j: int, m: Mode)
    requires
        0 <= i <= j <= s.len(),
        forall|k: int| i <= k < j ==> run_pred(m, s[k]),
        j < s.len() ==> !run_pred(m, s[j]),
    ensures
        run_end(s, i, m) == j,
    decreases j - i,
{
    if i < j {
        assert(run_pred(m, s[i]));
        lemma_run_end_is(s, i + 1, j, m);
    }
}

/// The index just past the current line's `\n` (or the end of the input).
pub open spec fn line_end(s: Seq<char>, i: int) -> int {
    run_end(s, i, Mode::Line)
}

/// The position the cursor rests at after skipping whitespace and `//` line
/// comments from `i`.
pub open spec fn ws_end(s: Seq<char>, i: int) -> int
    decreases s.len() - i,
    when 0 <= i <= s.len()
    via ws_end_dec
{
    if i >= s.len() {
        i
    } else if s[i] == '/' && i + 1 < s.len() && s[i + 1] == '/' {
        if line_end(s, i) < s.len() {
            ws_end(s, line_end(s, i) + 1)
        } else {
            s.len() as int
        }
    } else if is_space(s[i]) {
        ws_end(s, i + 1)
    } else {
        i
    }
}

#[via_fn]
proof fn ws_end_dec(s: Seq<char>, i: int) {
    if 0 <= i < s.len() {
        lemma_run_end(s, i, Mode::Line);
    }
}

pub proof fn lemma_ws_end(s: Seq<char>, i: int)
    requires
        0 <= i <= s.len(),
    ensures
        i <= ws_end(s, i) <= s.len(),
    decreases s.len() - i,
{
    if i < s.len() {
        if s[i] == '/' && i + 1 < s.len() && s[i + 1] == '/' {
            lemma_run_end(s, i, Mode::Line);
            if line_end(s, i) < s.len() {
                lemma_ws_end(s, line_end(s, i) + 1);
            }
        } else if is_space(s[i]) {
            lemma_ws_end(s, i + 1);
        }
    }
}

/// Skipping whitespace is idempotent: the stop position starts no comment
/// and holds no whitespace, so skipping again from it goes nowhere.
pub proof fn lemma_ws_end_idem(s: Seq<char>, i: int)
    requires
        0 <= i <= s.len(),
    ensures
        ws_end(s, ws_end(s, i)) == ws_end(s, i),
    decreases s.len() - i,
{
    lemma_ws_end(s, i);
    if i < s.len() {
        if s[i] == '/' && i + 1 < s.len() && s[i + 1] == '/' {
            lemma_run_end(s, i, Mode::Line);
            if line_end(s, i) < s.len() {
                lemma_ws_end_idem(s, line_end(s, i) + 1);
            }
        } else if is_space(s[i]) {
            lemma_ws_end_idem(s, i + 1);
        }
    }
}

/// The offset of the most recent non-whitespace character strictly before
/// `pos`, or 0 when there is none.
pub open spec fn nws_before(s: Seq<char>, pos: int) -> int
    decreases pos,
    when 0 <= pos <= s.len()
{
    if pos <= 0 {
        0
    } else if is_space(s[pos - 1]) {
        nws_before(s, pos - 1)
    } else {
        pos - 1
    }
}

pub proof fn lemma_nws_before(s: Seq<char>, pos: int)
    requires
        0 <= pos <= s.len(),
    ensures
        0 <= nws_before(s, pos) <= pos,
        pos > 0 ==> nws_before(s, pos) < pos,
    decreases pos,
{
    if pos > 0 && is_space(s[pos - 1]) {
        lemma_nws_before(s, pos - 1);
    }
}

/// Where a failed word attempt at end of input restores the cursor to:
/// just past the last non-whitespace character. On an input that holds no
/// non-whitespace character at all this is deliberately clipped to the
/// input's end, so the cursor never rests past its source.
pub open spec fn eof_restore(s: Seq<char>, pos: int) -> int {
    if nws_before(s, pos) < s.len() {
        nws_before(s, pos) + 1
    } else {
        s.len() as int
    }
}

/// One lexical word read at `i` (no whitespace skipped): the word and the
/// offset just past it. `None` when the character at `i` begins no word.
pub open spec fn classify_word(s: Seq<char>, i: int) -> Option<(Seq<char>, int)> {
    if !(0 <= i < s.len()) {
        None
    } else if is_ident_start(s[i]) {
        Some((s.subrange(i, run_end(s, i + 1, Mode::Ident)), run_end(s, i + 1, Mode::Ident)))
    } else if is_punct(s[i]) {
        Some((s.subrange(i, i + 1), i + 1))
    } else if s[i] == '.' || s[i] == ':' {
        Some((s.subrange(i, run_end(s, i + 1, Mode::Same(s[i]))), run_end(
            s,
            i + 1,
            Mode::Same(s[i]),
        )))
    } else if is_op(s[i]) {
        Some((s.subrange(i, run_end(s, i + 1, Mode::Op)), run_end(s, i + 1, Mode::Op)))
    } else {
        None
    }
}


/// Word classification, identifier case: an input built purely from
/// identifier characters (none of them whitespace, the first no slash)
/// classifies as a single identifier word of maximal length - the whole
/// input, consumed to its end.
pub proof fn lemma_ident_classification(s: Seq<char>)
    requires
        s.len() > 0,
        is_ident_start(s[0]),
        forall|i: int| 1 <= i < s.len() ==> is_ident_cont(#[trigger] s[i]),
        forall|i: int| 0 <= i < s.len() ==> !is_space(#[trigger] s[i]),
        s[0] != '/',
    ensures
        ws_end(s, 0) == 0,
        classify_word(s, 0) == Some((s, s.len() as int)),
{
    lemma_run_end_is(s, 1, s.len() as int, Mode::Ident);
    assert(s.subrange(0, s.len() as int) =~= s);
}

/// Word classification, separator case: a run of `.` characters classifies
/// as one word regardless of length.
pub proof fn lemma_dot_run_classification(s: Seq<char>)
    requires
        s.len() > 0,
        forall|i: int| 0 <= i < s.len() ==> #[trigger] s[i] == '.',
        !is_ident_start('.'),
    ensures
        ws_end(s, 0) == 0,
        classify_word(s, 0) == Some((s, s.len() as int)),
{
    assert(s[0] == '.');
    lemma_run_end_is(s, 1, s.len() as int, Mode::Same('.'));
    assert(s.subrange(0, s.len() as int) =~= s);
}

/// The text of a "expected one thing, got another" diagnostic.
pub open spec fn expected_got_msg(exp: Seq<char>, got: Seq<char>) -> Seq<char> {
    "Expected '"@ + exp + "', got '"@ + got + "'"@
}

/// Builds the text of a "expected one thing, got another" diagnostic.
fn build_expected_got(exp: &Vec<char>, got: &Vec<char>) -> (r: String)
    ensures
        r@ == expected_got_msg(exp@, got@),
{
    let mut v: Vec<char> = Vec::new();
    append_str(&mut v, "Expected '");
    let mut i: usize = 0;
    while i < exp.len()
        invariant
            i <= exp@.len(),
            v@ == "Expected '"@ + exp@.subrange(0, i as int),
        decreases exp@.len() - i,
    {
        v.push(exp[i]);
        assert(v@ =~= "Expected '"@ + exp@.subrange(0, i + 1 as int));
        i += 1;
    }
    assert(v@ =~= "Expected '"@ + exp@);
    append_str(&mut v, "', got '");
    let mut j: usize = 0;
    while j < got.len()
        invariant
            j <= got@.len(),
            v@ == "Expected '"@ + exp@ + "', got '"@ + got@.subrange(0, j as int),
        decreases got@.len() - j,
    {
        v.push(got[j]);
        assert(v@ =~= "Expected '"@ + exp@ + "', got '"@ + got@.subrange(0, j + 1 as int));
        j += 1;
    }
    assert(v@ =~= "Expected '"@ + exp@ + "', got '"@ + got@);
    append_str(&mut v, "'");
    let r = chars_string(&v);
    assert(r@ =~= expected_got_msg(exp@, got@));
    r
}

/// The characters standing for end of input in a diagnostic.
fn eof_chars() -> (r: Vec<char>)
    ensures
        r@ == "EOF"@,
{
    let mut v: Vec<char> = Vec::new();
    append_str(&mut v, "EOF");
    assert(v@ =~= "EOF"@);
    v
}

/// The source location of a successfully parsed expression.
#[derive(Clone, Copy, PartialEq, Eq, Structural, Debug)]
pub struct ExprMeta {
    pub span: Span,
}

impl ExprMeta {
    /// The location of something that exists in no real source.
    pub fn builtin() -> (r: ExprMeta)
        ensures
            r.span == (Span { src_id: 0, start: 0, end: 0 }),
    {
        ExprMeta { span: Span::zero() }
    }
}

/// The backtracking character cursor over one source.
pub struct Parser<'s> {
    src: &'s Src,
    pos: usize,
}

impl<'s> Parser<'s> {
    /// The characters of the source under the cursor.
    pub closed spec fn text(&self) -> Seq<char> {
        self.src@
    }

    pub closed spec fn src_id(&self) -> usize {
        self.src.id_spec()
    }

    pub closed spec fn spec_pos(&self) -> int {
        self.pos as int
    }

    /// The cursor never rests past the end of its source, and the source
    /// fits the machine's address space.
    pub open spec fn wf(&self) -> bool {
        self.spec_pos() <= self.text().len() && self.text().len() <= usize::MAX
    }

    /// Both cursors read the same source.
    pub open spec fn same_src(&self, other: &Parser<'s>) -> bool {
        self.text() == other.text() && self.src_id() == other.src_id()
    }

    pub fn new(src: &'s Src) -> (r: Parser<'s>)
        ensures
            r.text() == src@,
            r.src_id() == src.id_spec(),
            r.spec_pos() == 0,
            r.wf(),
    {
        proof {
            src.lemma_len_bound();
        }
        Parser { src, pos: 0 }
    }

    pub fn pos(&self) -> (r: usize)
        ensures
            r == self.spec_pos(),
    {
        self.pos
    }

    pub fn peek(&self) -> (r: Option<char>)
        ensures
            r is Some <==> self.spec_pos() < self.text().len(),
            r is Some ==> r->0 == self.text()[self.spec_pos()],
    {
        self.src.get(self.pos)
    }

    /// Consumes one character; does not advance at end of input.
    pub fn next(&mut self) -> (r: Option<char>)
        requires
            old(self).wf(),
        ensures
            final(self).wf(),
            final(self).same_src(old(self)),
            old(self).spec_pos() < old(self).text().len() ==> r == Some(
                old(self).text()[old(self).spec_pos()],
            ) && final(self).spec_pos() == old(self).spec_pos() + 1,
            old(self).spec_pos() >= old(self).text().len() ==> r is None && final(self).spec_pos()
                == old(self).spec_pos(),
    {
        let r = self.src.get(self.pos);
        if r.is_some() {
            self.pos = self.pos + 1;
        }
        r
    }

    /// Jumps directly to `pos` (backtracking).
    pub fn goto(&mut self, pos: usize)
        requires
            old(self).wf(),
            pos <= old(self).text().len(),
        ensures
            final(self).wf(),
            final(self).same_src(old(self)),
            final(self).spec_pos() == pos,
    {
        self.pos = pos;
    }

    /// A diagnostic of this source spanning `start` to the current position.
    pub fn error(&self, start: usize, message: String) -> (r: Message)
        ensures
            r.level == Level::Error,
            r.info == message,
            r.notes@.len() == 0,
            r.span == (Span { src_id: self.src_id(), start, end: self.spec_pos() as usize }),
    {
        Message {
            level: Level::Error,
            info: message,
            notes: Vec::new(),
            span: self.src.range(start, self.pos),
        }
    }

    /// Skips whitespace and `//` line comments; returns the new position.
    pub fn skip_ws(&mut self) -> (r: usize)
        requires
            old(self).wf(),
        ensures
            final(self).wf(),
            final(self).same_src(old(self)),
            final(self).spec_pos() == ws_end(old(self).text(), old(self).spec_pos()),
            final(self).spec_pos() >= old(self).spec_pos(),
            r == final(self).spec_pos(),
    {
        let ghost s = self.text();
        let ghost p0 = self.spec_pos();
        let mut done = false;
        while !done
            invariant
                self.wf(),
                self.same_src(old(self)),
                0 <= p0 <= self.spec_pos(),
                p0 <= s.len(),
                ws_end(s, p0) == ws_end(s, self.spec_pos()),
                s == self.text(),
                done ==> ws_end(s, self.spec_pos()) == self.spec_pos(),
            decreases self.text().len() - self.spec_pos() + (if done {
                0int
            } else {
                1int
            }),
        {
            let p = self.peek();
            match p {
                None => {
                    done = true;
                },
                Some(ch) => {
                    let next_c = self.src.get(self.pos + 1);
                    let is_comment = ch == '/' && match next_c {
                        Some(x) => x == '/',
                        None => false,
                    };
                    if is_comment {
                        let ghost cp = self.spec_pos();
                        let mut cdone = false;
                        while !cdone
                            invariant
                                self.wf(),
                                self.same_src(old(self)),
                                s == self.text(),
                                0 <= p0 <= s.len(),
                                0 <= cp <= self.spec_pos() <= s.len(),
                                s[cp] == '/' && cp + 1 < s.len() && s[cp + 1] == '/',
                                ws_end(s, p0) == ws_end(s, cp),
                                !cdone ==> forall|k: int|
                                    cp <= k < self.spec_pos() ==> s[k] != '\n',
                                cdone ==> (self.spec_pos() == s.len() && forall|k: int|
                                    cp <= k < self.spec_pos() ==> s[k] != '\n') || (
                                self.spec_pos() >= cp + 1 && s[self.spec_pos() - 1] == '\n'
                                    && forall|k: int|
                                    cp <= k < self.spec_pos() - 1 ==> s[k] != '\n'),
                            decreases self.text().len() - self.spec_pos() + (if cdone {
                                0int
                            } else {
                                1int
                            }),
                        {
                            let c = self.next();
                            match c {
                                None => {
                                    cdone = true;
                                },
                                Some(c2) => {
                                    if c2 == '\n' {
                                        cdone = true;
                                    }
                                },
                            }
                        }
                        proof {
                            if self.spec_pos() >= 1 && self.spec_pos() - 1 < s.len() && s[
                                self.spec_pos() - 1] == '\n' && forall|k: int|
                                cp <= k < self.spec_pos() - 1 ==> s[k] != '\n' {
                                lemma_run_end_is(s, cp, self.spec_pos() - 1, Mode::Line);
                                assert(line_end(s, cp) == self.spec_pos() - 1);
                                assert(ws_end(s, cp) == ws_end(s, self.spec_pos()));
                            } else {
                                assert(self.spec_pos() == s.len());
                                lemma_run_end_is(s, cp, s.len() as int, Mode::Line);
                                assert(line_end(s, cp) == s.len());
                                assert(ws_end(s, cp) == s.len());
                            }
                        }
                    } else if is_space_ch(ch) {
                        self.next();
                    } else {
                        done = true;
                        proof {
                            assert(ws_end(s, self.spec_pos()) == self.spec_pos());
                        }
                    }
                },
            }
        }
        self.pos
    }

    /// Consumes exactly `ch`; on any other input fails without moving.
    pub fn expect_ch(&mut self, ch: char) -> (r: Result<char, Message>)
        requires
            old(self).wf(),
        ensures
            final(self).wf(),
            final(self).same_src(old(self)),
            ({
                let s = old(self).text();
                let p = old(self).spec_pos();
                if p < s.len() && s[p] == ch {
                    &&& r == Result::<char, Message>::Ok(ch)
                    &&& final(self).spec_pos() == p + 1
                } else {
                    &&& r is Err
                    &&& final(self).spec_pos() == p
                    &&& r->Err_0.level == Level::Error
                    &&& r->Err_0.span == (Span {
                        src_id: old(self).src_id(),
                        start: p as usize,
                        end: p as usize,
                    })
                    &&& r->Err_0.info@ == expected_got_msg(
                        seq![ch],
                        if p < s.len() {
                            seq![s[p]]
                        } else {
                            "EOF"@
                        },
                    )
                }
            }),
    {
        let p = self.peek();
        let matched = match p {
            Some(c) => c == ch,
            None => false,
        };
        if matched {
            self.next();
            Ok(ch)
        } else {
            let mut exp: Vec<char> = Vec::new();
            exp.push(ch);
            assert(exp@ =~= seq![ch]);
            let got = match p {
                Some(c) => {
                    let mut g: Vec<char> = Vec::new();
                    g.push(c);
                    assert(g@ =~= seq![c]);
                    g
                },
                None => eof_chars(),
            };
            let start = self.pos;
            let msg = build_expected_got(&exp, &got);
            Err(self.error(start, msg))
        }
    }

    /// Consumes any one character except `ch`; fails without moving at `ch`
    /// or at end of input.
    pub fn expect_not_ch(&mut self, ch: char) -> (r: Result<char, Message>)
        requires
            old(self).wf(),
        ensures
            final(self).wf(),
            final(self).same_src(old(self)),
            ({
                let s = old(self).text();
                let p = old(self).spec_pos();
                if p < s.len() && s[p] != ch {
                    &&& r == Result::<char, Message>::Ok(s[p])
                    &&& final(self).spec_pos() == p + 1
                } else {
                    &&& r is Err
                    &&& final(self).spec_pos() == p
                    &&& r->Err_0.level == Level::Error
                    &&& r->Err_0.info@ == "Expected any character but '"@ + seq![ch] + "'"@
                }
            }),
    {
        let p = self.peek();
        let matched = match p {
            Some(c) => c != ch,
            None => false,
        };
        if matched {
            let r = self.next();
            match r {
                Some(c) => Ok(c),
                None => {
                    proof {
                        assert(false);
                    }
                    Err(self.error(0, String::new()))
                },
            }
        } else {
            let mut v: Vec<char> = Vec::new();
            append_str(&mut v, "Expected any character but '");
            v.push(ch);
            append_str(&mut v, "'");
            assert(v@ =~= "Expected any character but '"@ + seq![ch] + "'"@);
            let start = self.pos;
            let msg = chars_string(&v);
            Err(self.error(start, msg))
        }
    }

    /// Consumes one character the predicate accepts; otherwise fails without
    /// moving, naming `name` in the diagnostic.
    pub fn expect_ch_with<F: Fn(char) -> bool>(&mut self, ch: F, name: &str) -> (r: Result<
        char,
        Message,
    >)
        requires
            old(self).wf(),
            forall|c: char| #[trigger] call_requires(ch, (c,)),
        ensures
            final(self).wf(),
            final(self).same_src(old(self)),
            ({
                let s = old(self).text();
                let p = old(self).spec_pos();
                match r {
                    Ok(c) => p < s.len() && c == s[p] && call_ensures(ch, (c,), true)
                        && final(self).spec_pos() == p + 1,
                    Err(m) => final(self).spec_pos() == p && m.level == Level::Error && (p < s.len()
                        ==> call_ensures(ch, (s[p],), false)) && m.info@ == expected_got_msg(
                        name@,
                        if p < s.len() {
                            seq![s[p]]
                        } else {
                            "EOF"@
                        },
                    ),
                }
            }),
    {
        let p = self.peek();
        let matched = match p {
            Some(c) => ch(c),
            None => false,
        };
        if matched {
            let r = self.next();
            match r {
                Some(c) => Ok(c),
                None => {
                    proof {
                        assert(false);
                    }
                    Err(self.error(0, String::new()))
                },
            }
        } else {
            let exp = str_chars(name);
            let got = match p {
                Some(c) => {
                    let mut g: Vec<char> = Vec::new();
                    g.push(c);
                    assert(g@ =~= seq![c]);
                    g
                },
                None => eof_chars(),
            };
            let start = self.pos;
            let msg = build_expected_got(&exp, &got);
            Err(self.error(start, msg))
        }
    }

    /// Consumes one character in the inclusive range `lo..=hi`; otherwise
    /// fails without moving.
    pub fn expect_ch_range(&mut self, lo: char, hi: char) -> (r: Result<char, Message>)
        requires
            old(self).wf(),
        ensures
            final(self).wf(),
            final(self).same_src(old(self)),
            ({
                let s = old(self).text();
                let p = old(self).spec_pos();
                if p < s.len() && lo <= s[p] && s[p] <= hi {
                    &&& r == Result::<char, Message>::Ok(s[p])
                    &&& final(self).spec_pos() == p + 1
                } else {
                    &&& r is Err
                    &&& final(self).spec_pos() == p
                    &&& r->Err_0.level == Level::Error
                    &&& r->Err_0.info@ == "Expected '"@ + seq![lo] + "'..'"@ + seq![hi]
                        + "', got '"@ + (if p < s.len() {
                        seq![s[p]]
                    } else {
                        "EOF"@
                    }) + "'"@
                }
            }),
    {
        let p = self.peek();
        let matched = match p {
            Some(c) => lo <= c && c <= hi,
            None => false,
        };
        if matched {
            let r = self.next();
            match r {
                Some(c) => Ok(c),
                None => {
                    proof {
                        assert(false);
                    }
                    Err(self.error(0, String::new()))
                },
            }
        } else {
            let mut v: Vec<char> = Vec::new();
            append_str(&mut v, "Expected '");
            v.push(lo);
            append_str(&mut v, "'..'");
            v.push(hi);
            append_str(&mut v, "', got '");
            match p {
                Some(c) => {
                    v.push(c);
                },
                None => {
                    append_str(&mut v, "EOF");
                },
            }
            append_str(&mut v, "'");
            proof {
                if old(self).spec_pos() < old(self).text().len() {
                    assert(v@ =~= "Expected '"@ + seq![lo] + "'..'"@ + seq![hi] + "', got '"@
                        + seq![old(self).text()[old(self).spec_pos()]] + "'"@);
                } else {
                    assert(v@ =~= "Expected '"@ + seq![lo] + "'..'"@ + seq![hi] + "', got '"@
                        + "EOF"@ + "'"@);
                }
            }
            let start = self.pos;
            let msg = chars_string(&v);
            Err(self.error(start, msg))
        }
    }

    /// Extends the cursor to the end of the current run of class `kind`,
    /// appending the consumed characters to `res`.
    fn scan_run(&mut self, kind: Mode, res: &mut Vec<char>)
        requires
            old(self).wf(),
        ensures
            final(self).wf(),
            final(self).same_src(old(self)),
            final(self).spec_pos() == run_end(old(self).text(), old(self).spec_pos(), kind),
            final(res)@ == old(res)@ + old(self).text().subrange(
                old(self).spec_pos(),
                final(self).spec_pos(),
            ),
    {
        let ghost s = self.text();
        let ghost p0 = self.spec_pos();
        proof {
            assert(res@ =~= res@ + s.subrange(p0, p0));
        }
        let mut done = false;
        while !done
            invariant
                self.wf(),
                self.same_src(old(self)),
                s == self.text(),
                0 <= p0 <= self.spec_pos() <= s.len(),
                forall|k: int| p0 <= k < self.spec_pos() ==> run_pred(kind, s[k]),
                res@ == old(res)@ + s.subrange(p0, self.spec_pos()),
                done ==> (self.spec_pos() == s.len() || !run_pred(kind, s[self.spec_pos()])),
            decreases s.len() - self.spec_pos() + (if done {
                0int
            } else {
                1int
            }),
        {
            let p = self.peek();
            match p {
                None => {
                    done = true;
                },
                Some(c) => {
                    if mode_pred(kind, c) {
                        let ghost pp = self.spec_pos();
                        self.next();
                        res.push(c);
                        proof {
                            assert(0 <= p0 <= pp < s.len());
                            assert(c == s[pp]);
                            assert(res@ == (old(res)@ + s.subrange(p0, pp)).push(c));
                            assert(s.subrange(p0, pp + 1) =~= s.subrange(p0, pp).push(c));
                            assert(old(res)@ + s.subrange(p0, pp).push(c) =~= (old(res)@
                                + s.subrange(p0, pp)).push(c));
                            assert(res@ == old(res)@ + s.subrange(p0, self.spec_pos()));
                        }
                    } else {
                        done = true;
                    }
                },
            }
        }
        proof {
            lemma_run_end_is(s, p0, self.spec_pos(), kind);
        }
    }

    /// Skips whitespace, then classifies and consumes one lexical word: a
    /// maximal identifier, one punctuation character, a run of `.` or `:`,
    /// or a maximal operator run. On failure the cursor is restored as the
    /// contract says and the diagnostic names `word` as what was expected.
    pub fn next_word(&mut self, word: &str) -> (r: Result<String, Message>)
        requires
            old(self).wf(),
        ensures
            final(self).wf(),
            final(self).same_src(old(self)),
            r is Ok ==> final(self).spec_pos() > old(self).spec_pos(),
            ({
                let s = old(self).text();
                let start = ws_end(s, old(self).spec_pos());
                match classify_word(s, start) {
                    Some(we) => r is Ok && r->Ok_0@ == we.0 && final(self).spec_pos() == we.1,
                    None => {
                        &&& r is Err
                        &&& r->Err_0.level == Level::Error
                        &&& (if start >= s.len() {
                            &&& final(self).spec_pos() == eof_restore(s, start)
                            &&& r->Err_0.info@ == "Expected '"@ + word@ + "', got EOF"@
                        } else {
                            &&& final(self).spec_pos() == start
                            &&& r->Err_0.info@ == expected_got_msg(word@, seq![s[start]])
                        })
                    },
                }
            }),
    {
        let ghost s = self.text();
        let start = self.skip_ws();
        proof {
            lemma_ws_end(s, old(self).spec_pos());
        }
        let first = self.next();
        match first {
            None => {
                let nws = self.last_nws_pos();
                let restore = if nws < self.src.len() {
                    nws + 1
                } else {
                    self.src.len()
                };
                proof {
                    lemma_nws_before(s, start as int);
                }
                self.goto(restore);
                let exp = str_chars(word);
                let mut v: Vec<char> = Vec::new();
                append_str(&mut v, "Expected '");
                let mut i: usize = 0;
                while i < exp.len()
                    invariant
                        i <= exp@.len(),
                        exp@ == word@,
                        v@ == "Expected '"@ + exp@.subrange(0, i as int),
                    decreases exp@.len() - i,
                {
                    v.push(exp[i]);
                    assert(v@ =~= "Expected '"@ + exp@.subrange(0, i + 1 as int));
                    i += 1;
                }
                assert(v@ =~= "Expected '"@ + exp@);
                append_str(&mut v, "', got EOF");
                assert(v@ =~= "Expected '"@ + word@ + "', got EOF"@);
                let msg = chars_string(&v);
                Err(self.error(restore, msg))
            },
            Some(ch) => {
                let mut res: Vec<char> = Vec::new();
                res.push(ch);
                if is_ident_start_ch(ch) {
                    assert(res@ =~= s.subrange(start as int, start + 1 as int));
                    self.scan_run(Mode::Ident, &mut res);
                    proof {
                        lemma_run_end(s, start + 1 as int, Mode::Ident);
                        assert(res@ =~= s.subrange(
                            start as int,
                            run_end(s, start + 1, Mode::Ident),
                        ));
                    }
                    Ok(chars_string(&res))
                } else if is_punct_char(ch) {
                    assert(res@ =~= s.subrange(start as int, start + 1 as int));
                    Ok(chars_string(&res))
                } else if ch == '.' || ch == ':' {
                    assert(res@ =~= s.subrange(start as int, start + 1 as int));
                    self.scan_run(Mode::Same(ch), &mut res);
                    proof {
                        lemma_run_end(s, start + 1 as int, Mode::Same(ch));
                        assert(res@ =~= s.subrange(
                            start as int,
                            run_end(s, start + 1, Mode::Same(ch)),
                        ));
                    }
                    Ok(chars_string(&res))
                } else if is_op_char(ch) {
                    assert(res@ =~= s.subrange(start as int, start + 1 as int));
                    self.scan_run(Mode::Op, &mut res);
                    proof {
                        lemma_run_end(s, start + 1 as int, Mode::Op);
                        assert(res@ =~= s.subrange(start as int, run_end(s, start + 1, Mode::Op)));
                    }
                    Ok(chars_string(&res))
                } else {
                    self.goto(start);
                    let exp = str_chars(word);
                    let mut got: Vec<char> = Vec::new();
                    got.push(ch);
                    assert(got@ =~= seq![s[start as int]]);
                    let msg = build_expected_got(&exp, &got);
                    Err(self.error(start, msg))
                }
            },
        }
    }

    /// Skips whitespace, reads one word, and checks it is exactly `word`;
    /// on mismatch restores the cursor to the post-whitespace position.
    pub fn expect_word(&mut self, word: &str) -> (r: Result<String, Message>)
        requires
            old(self).wf(),
        ensures
            final(self).wf(),
            final(self).same_src(old(self)),
            r is Ok ==> final(self).spec_pos() > old(self).spec_pos(),
            ({
                let s = old(self).text();
                let start = ws_end(s, old(self).spec_pos());
                match classify_word(s, start) {
                    Some(we) => if we.0 == word@ {
                        r is Ok && r->Ok_0@ == word@ && final(self).spec_pos() == we.1
                    } else {
                        r is Err && final(self).spec_pos() == start && r->Err_0.level
                            == Level::Error && r->Err_0.info@ == expected_got_msg(word@, we.0)
                    },
                    None => {
                        &&& r is Err
                        &&& r->Err_0.level == Level::Error
                        &&& (if start >= s.len() {
                            final(self).spec_pos() == eof_restore(s, start)
                        } else {
                            final(self).spec_pos() == start
                        })
                    },
                }
            }),
    {
        let ghost s = self.text();
        let start = self.skip_ws();
        proof {
            lemma_ws_end(s, old(self).spec_pos());
            lemma_ws_end_idem(s, old(self).spec_pos());
        }
        let next = self.next_word(word)?;
        if next == word.to_owned() {
            Ok(word.to_owned())
        } else {
            self.goto(start);
            let exp = str_chars(word);
            let got = str_chars(next.as_str());
            let msg = build_expected_got(&exp, &got);
            Err(self.error(start, msg))
        }
    }

    /// Parses one value of the grammar rule `R` at the cursor.
    pub fn expect_rule<R: Rule>(&mut self, pool: &mut NodePool) -> (r: Result<R, Message>)
        requires
            old(self).wf(),
        ensures
            final(self).wf(),
            final(self).same_src(old(self)),
            r is Err ==> final(self).spec_pos() == old(self).spec_pos(),
    {
        Rule::expect(self, pool)
    }

    /// Succeeds exactly when only whitespace and comments remain.
    pub fn expect_eof(&mut self) -> (r: Result<(), Message>)
        requires
            old(self).wf(),
        ensures
            final(self).wf(),
            final(self).same_src(old(self)),
            final(self).spec_pos() == ws_end(old(self).text(), old(self).spec_pos()),
            final(self).spec_pos() >= old(self).spec_pos(),
            r is Ok <==> ws_end(old(self).text(), old(self).spec_pos()) >= old(self).text().len(),
            r is Err ==> r->Err_0.level == Level::Error && r->Err_0.info@ == "Expected EOF"@,
    {
        let eof = self.is_eof();
        if eof {
            Ok(())
        } else {
            let mut v: Vec<char> = Vec::new();
            append_str(&mut v, "Expected EOF");
            assert(v@ =~= "Expected EOF"@);
            let start = self.pos;
            let msg = chars_string(&v);
            Err(self.error(start, msg))
        }
    }

    /// Skips whitespace and reports whether the input is exhausted.
    pub fn is_eof(&mut self) -> (r: bool)
        requires
            old(self).wf(),
        ensures
            final(self).wf(),
            final(self).same_src(old(self)),
            final(self).spec_pos() == ws_end(old(self).text(), old(self).spec_pos()),
            final(self).spec_pos() >= old(self).spec_pos(),
            r <==> final(self).spec_pos() >= old(self).text().len(),
    {
        self.skip_ws();
        self.pos >= self.src.len()
    }

    /// The offset of the most recent non-whitespace character before the
    /// cursor, or 0 when there is none.
    pub fn last_nws_pos(&self) -> (r: usize)
        requires
            self.wf(),
        ensures
            r == nws_before(self.text(), self.spec_pos()),
    {
        let ghost s = self.text();
        let mut p = self.pos;
        while p > 0
            invariant
                p <= self.spec_pos(),
                s == self.text(),
                self.wf(),
                nws_before(s, self.spec_pos()) == nws_before(s, p as int),
            decreases p,
        {
            let c = self.src.get(p - 1);
            let ws = match c {
                Some(x) => is_space_ch(x),
                None => false,
            };
            if ws {
                p = p - 1;
            } else {
                return p - 1;
            }
        }
        0
    }

    /// The span from `start` to just past the last non-whitespace character.
    pub fn get_meta(&self, start: usize) -> (r: ExprMeta)
        requires
            self.wf(),
        ensures
            r.span == (Span {
                src_id: self.src_id(),
                start,
                end: (nws_before(self.text(), self.spec_pos()) + 1) as usize,
            }),
    {
        proof {
            lemma_nws_before(self.text(), self.spec_pos());
        }
        let nws = self.last_nws_pos();
        ExprMeta { span: self.src.range(start, nws + 1) }
    }
}

/// A grammar rule: a function from the parser state to a parsed value with
/// its span, or a descriptive error. A failed attempt leaves the cursor
/// position exactly where it was before the attempt.
pub trait Rule: Sized {
    fn expect(parser: &mut Parser<'_>, pool: &mut NodePool) -> (r: Result<Self, Message>)
        requires
            old(parser).wf(),
        ensures
            final(parser).wf(),
            final(parser).same_src(old(parser)),
            final(pool)@.len() >= old(pool)@.len(),
            r is Err ==> final(parser).spec_pos() == old(parser).spec_pos(),
    ;

    fn meta(&self) -> &ExprMeta;
}

} // verus!
