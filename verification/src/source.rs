//! Immutable source buffers, spans into them, and the diagnostic sink.

use vstd::prelude::*;

verus! {

/// A half-open offset interval into the source with identifier `src_id`.
/// The builtin source's sentinel span is all zeroes.
#[derive(Clone, Copy, PartialEq, Eq, Structural, Debug)]
pub struct Span {
    pub src_id: usize,
    pub start: usize,
    pub end: usize,
}

impl Span {
    /// The sentinel span of the builtin source.
    pub fn zero() -> (r: Span)
        ensures
            r == (Span { src_id: 0, start: 0, end: 0 }),
    {
        Span { src_id: 0, start: 0, end: 0 }
    }
}

/// An immutable, identified buffer of text. Identifier 0 is reserved for
/// the synthetic builtin source, which has no real location.
pub struct Src {
    id: usize,
    chars: Vec<char>,
}

impl Src {
    /// The characters of the buffer.
    pub closed spec fn view(&self) -> Seq<char> {
        self.chars@
    }

    pub closed spec fn id_spec(&self) -> usize {
        self.id
    }

    /// The character at offset `i`, if it is within the buffer.
    pub open spec fn get_spec(&self, i: int) -> Option<char> {
        if 0 <= i < self@.len() {
            Some(self@[i])
        } else {
            None
        }
    }

    /// A real source buffer. Requires a nonzero identifier: 0 names the
    /// builtin source.
    /// A buffer's length always fits the machine's address space.
    pub proof fn lemma_len_bound(&self)
        ensures
            self@.len() <= usize::MAX,
    {
        vstd::std_specs::vec::axiom_spec_len(&self.chars);
    }

    pub fn new(id: usize, text: Vec<char>) -> (r: Src)
        requires
            id != 0,
        ensures
            r@ == text@,
            r.id_spec() == id,
    {
        Src { id, chars: text }
    }

    /// The synthetic builtin source: empty, with no real location.
    pub fn builtin() -> (r: Src)
        ensures
            r@ == Seq::<char>::empty(),
            r.id_spec() == 0,
    {
        Src { id: 0, chars: Vec::new() }
    }

    pub fn id(&self) -> (r: usize)
        ensures
            r == self.id_spec(),
    {
        self.id
    }

    pub fn len(&self) -> (r: usize)
        ensures
            r == self@.len(),
    {
        self.chars.len()
    }

    pub fn get(&self, i: usize) -> (r: Option<char>)
        ensures
            r == self.get_spec(i as int),
    {
        if i < self.chars.len() {
            Some(self.chars[i])
        } else {
            None
        }
    }

    /// A span of this source over `[start, end)`.
    pub fn range(&self, start: usize, end: usize) -> (r: Span)
        ensures
            r == (Span { src_id: self.id_spec(), start, end }),
    {
        Span { src_id: self.id, start, end }
    }
}

/// The set of source buffers one batch works over.
pub struct SrcPool {
    pub srcs: Vec<Src>,
}

impl SrcPool {
    pub fn new() -> (r: SrcPool)
        ensures
            r.srcs@.len() == 0,
    {
        SrcPool { srcs: Vec::new() }
    }

    pub fn add(&mut self, src: Src)
        ensures
            final(self).srcs@ == old(self).srcs@.push(src),
    {
        self.srcs.push(src);
    }

    pub fn len(&self) -> (r: usize)
        ensures
            r == self.srcs@.len(),
    {
        self.srcs.len()
    }
}

/// The severity of a diagnostic.
#[derive(Clone, Copy, PartialEq, Eq, Structural, Debug)]
pub enum Level {
    Error,
    Warning,
}

/// An attached explanation with its own text and location.
#[derive(Debug)]
pub struct Note {
    pub info: String,
    pub span: Span,
}

impl Note {
    pub fn new_at(info: String, span: Span) -> (r: Note)
        ensures
            r.info == info,
            r.span == span,
    {
        Note { info, span }
    }
}

/// A diagnostic: a severity, a free-text description, a primary span, and
/// zero or more notes.
#[derive(Debug)]
pub struct Message {
    pub level: Level,
    pub info: String,
    pub notes: Vec<Note>,
    pub span: Span,
}

impl Message {
    pub fn new(level: Level, info: String, span: Span) -> (r: Message)
        ensures
            r.level == level,
            r.info == info,
            r.span == span,
            r.notes@.len() == 0,
    {
        Message { level, info, notes: Vec::new(), span }
    }

    /// This message with one more note attached.
    pub fn note(self, note: Note) -> (r: Message)
        ensures
            r.level == self.level,
            r.info == self.info,
            r.span == self.span,
            r.notes@ == self.notes@.push(note),
    {
        let mut m = self;
        m.notes.push(note);
        m
    }
}

/// How many of the messages from index `i` on are errors.
pub open spec fn errors_in(ms: Seq<Message>, i: int) -> int
    decreases ms.len() - i,
    when 0 <= i <= ms.len()
{
    if i >= ms.len() {
        0
    } else {
        (if ms[i].level is Error {
            1int
        } else {
            0int
        }) + errors_in(ms, i + 1)
    }
}

/// The diagnostic sink: every reported message, in order.
pub struct Logger {
    pub messages: Vec<Message>,
}

impl Logger {
    pub fn new() -> (r: Logger)
        ensures
            r.messages@.len() == 0,
    {
        Logger { messages: Vec::new() }
    }

    pub fn log(&mut self, m: Message)
        ensures
            final(self).messages@ == old(self).messages@.push(m),
    {
        self.messages.push(m);
    }

    /// How many of the reported messages are errors.
    pub fn error_count(&self) -> (r: usize)
        ensures
            r == errors_in(self.messages@, 0),
    {
        let mut n: usize = 0;
        let mut i: usize = self.messages.len();
        proof {
            assert(errors_in(self.messages@, i as int) == 0);
        }
        while i > 0
            invariant
                i <= self.messages@.len(),
                n == errors_in(self.messages@, i as int),
                n <= self.messages@.len() - i,
            decreases i,
        {
            i -= 1;
            proof {
                vstd::std_specs::vec::axiom_spec_len(&self.messages);
                assert(errors_in(self.messages@, i as int) == (if self.messages@[i as int].level
                    is Error {
                    1int
                } else {
                    0int
                }) + errors_in(self.messages@, i + 1));
            }
            if matches!(self.messages[i].level, Level::Error) {
                n += 1;
            }
        }
        n
    }
}

} // verus!
