//! The grammar node types: tagged values stored in the arena, referring to
//! one another only through handles.

use vstd::prelude::*;
use crate::parser::{ExprMeta, Parser, Rule};
use crate::source::{Span, Level, Message, Note, Logger};
use crate::entity::{Entity, Ty};
use crate::checker::{scan, Checker, ScopeLevel};
use crate::pool::NodePool;
use crate::text::{
    append_str, append_chars, chars_string, str_chars, clone_chars, is_ident_start_ch,
};

verus! {

/// A ranked diagnostic hint attached to an unresolved identifier use. It
/// only ever upgrades to a higher-ranked explanation as more scopes are
/// examined; it never downgrades.
#[derive(Debug)]
pub enum PossibleMatch {
    /// Defined outside the function the use stands in.
    Inaccessible(Span),
    /// An ephemeral entity whose definition point has not been reached yet.
    NotYetDefined(Span),
    /// An entity with nearly the same name, supplied by a pluggable
    /// name-similarity heuristic.
    NearlyTheSameName(Vec<char>, Span),
    /// No possible match was seen.
    NoMatch,
}

impl Default for PossibleMatch {
    fn default() -> (r: Self)
        ensures
            r is NoMatch,
    {
        PossibleMatch::NoMatch
    }
}

impl PossibleMatch {
    /// The rank of this hint: stronger explanations out-rank weaker ones.
    pub open spec fn prec(&self) -> int {
        match self {
            PossibleMatch::NoMatch => 0,
            PossibleMatch::NearlyTheSameName(_, _) => 1,
            PossibleMatch::Inaccessible(_) => 2,
            PossibleMatch::NotYetDefined(_) => 3,
        }
    }

    pub fn precedence(&self) -> (r: usize)
        ensures
            r == self.prec(),
    {
        match self {
            PossibleMatch::NoMatch => 0,
            PossibleMatch::NearlyTheSameName(_, _) => 1,
            PossibleMatch::Inaccessible(_) => 2,
            PossibleMatch::NotYetDefined(_) => 3,
        }
    }

    /// What upgrading `h` with `c` leaves behind: whichever ranks higher,
    /// the standing hint winning ties.
    pub open spec fn upgraded(h: PossibleMatch, c: PossibleMatch) -> PossibleMatch {
        if h.prec() < c.prec() {
            c
        } else {
            h
        }
    }

    /// Replaces this hint by `another` only if `another` ranks strictly
    /// higher: a hint never downgrades.
    pub fn upgrade(&mut self, another: PossibleMatch)
        ensures
            *final(self) == PossibleMatch::upgraded(*old(self), another),
            final(self).prec() >= old(self).prec(),
            final(self).prec() >= another.prec(),
    {
        if self.precedence() < another.precedence() {
            *self = another;
        }
    }
}

/// An `if` with its condition, braced body, and optional `else`.
pub struct If {
    pub cond: usize,
    pub truthy: usize,
    pub falsy: Option<usize>,
    pub meta: ExprMeta,
}

/// What follows `else`: a braced block or a chained `if`.
pub enum Else {
    Else(usize, ExprMeta),
    ElseIf(usize, ExprMeta),
}

/// A `return` with an optional value.
pub struct Return {
    pub expr: Option<usize>,
    pub meta: ExprMeta,
}

/// A `using` item naming a possibly absolute path.
pub struct UsingItem {
    pub absolute: bool,
    pub path: Vec<Vec<char>>,
    pub meta: ExprMeta,
}

/// A control-flow expression.
pub enum Flow {
    If(usize, ExprMeta),
    Return(usize, ExprMeta),
    UsingItem(usize, ExprMeta),
}

/// An identifier use, or the self-reference keyword; carries the ranked
/// hint accumulated by failed resolution attempts.
pub enum ItemUseNode {
    This { meta: ExprMeta },
    Ident { name: Vec<char>, hint: PossibleMatch, meta: ExprMeta },
}

/// The atomic expressions.
pub enum AtomNode {
    /// A parenthesized expression.
    ClosedExpr { expr: usize, meta: ExprMeta },
    /// A braced expression list with its own lexical scope; the scope handle
    /// is filled in by the checker on first entry and reused by later passes.
    Block { list: usize, scope: Option<usize>, meta: ExprMeta },
    ItemUse { item: usize, meta: ExprMeta },
    Str { text: Vec<char>, meta: ExprMeta },
    Float { text: Vec<char>, meta: ExprMeta },
    Int { text: Vec<char>, meta: ExprMeta },
    Bool { value: bool, meta: ExprMeta },
    Void { meta: ExprMeta },
}

/// A sequence of expressions separated by `;`.
pub struct ExprList {
    pub exprs: Vec<usize>,
    pub meta: ExprMeta,
}

/// A `let` declaration of an ephemeral entity.
pub struct LetDecl {
    pub name: Vec<char>,
    pub value: usize,
    pub meta: ExprMeta,
}

/// An expression: a declaration, a control-flow construct, or an atom.
pub enum Expr {
    Let(usize, ExprMeta),
    Flow(usize, ExprMeta),
    Atom(usize, ExprMeta),
}

/// One node of the arena.
pub enum AstNode {
    If(If),
    Else(Else),
    Return(Return),
    Using(UsingItem),
    Flow(Flow),
    ItemUse(ItemUseNode),
    Atom(AtomNode),
    List(ExprList),
    Expr(Expr),
    Let(LetDecl),
}

impl ItemUseNode {
    /// Resolves this use against the checker's active scopes, exactly as
    /// the outward scan describes: the self-reference keyword resolves as
    /// an identifier named `this`, and an identifier's hint is upgraded in
    /// place by every failed near-miss.
    pub fn try_resolve_node(&mut self, checker: &Checker) -> (r: Option<Ty>)
        requires
            checker.wf(),
        ensures
            match *old(self) {
                ItemUseNode::This { meta } => r == scan(
                    checker.active(),
                    "this"@,
                    false,
                    PossibleMatch::NoMatch,
                ).0 && *final(self) == *old(self),
                ItemUseNode::Ident { name, hint, meta } => {
                    &&& r == scan(checker.active(), name@, false, hint).0
                    &&& (*final(self) matches ItemUseNode::Ident { name: n2, hint: h2, meta: m2 }
                        && n2 == name && h2 == scan(checker.active(), name@, false, hint).1
                        && m2 == meta)
                },
            },
    {
        match self {
            ItemUseNode::This { meta } => {
                let nm = str_chars("this");
                let mut dummy = PossibleMatch::NoMatch;
                checker.resolve_name(&nm, &mut dummy)
            },
            ItemUseNode::Ident { name, hint, meta } => {
                checker.resolve_name(name, hint)
            },
        }
    }

    /// Composes the primary "unknown item" diagnostic for this use, with
    /// exactly one explanatory note selected by the accumulated hint (and
    /// none for a bare failure), and reports it.
    pub fn log_unresolved_reason(&self, logger: &mut Logger)
        ensures
            final(logger).messages@.len() == old(logger).messages@.len() + 1,
            ({
                let m = final(logger).messages@.last();
                &&& m.level == Level::Error
                &&& match *self {
                    ItemUseNode::This { meta } => m.info@ == "'this' is not valid in this scope"@
                        && m.span == meta.span && m.notes@.len() == 0,
                    ItemUseNode::Ident { name, hint, meta } => m.info@ == "Unknown item "@ + name@
                        && m.span == meta.span && match hint {
                        PossibleMatch::NoMatch => m.notes@.len() == 0,
                        PossibleMatch::Inaccessible(sp) => m.notes@.len() == 1
                            && m.notes@[0].span == sp && m.notes@[0].info@ == "Item "@ + name@
                            + " is not accessible outside this function"@,
                        PossibleMatch::NotYetDefined(sp) => m.notes@.len() == 1
                            && m.notes@[0].span == sp && m.notes@[0].info@ == "Item "@ + name@
                            + " is defined later"@,
                        PossibleMatch::NearlyTheSameName(other, sp) => m.notes@.len() == 1
                            && m.notes@[0].span == sp && m.notes@[0].info@
                            == "A similarly named item '"@ + other@
                            + "' exists, did you mean that?"@,
                    },
                }
            }),
    {
        match self {
            ItemUseNode::This { meta } => {
                let mut v: Vec<char> = Vec::new();
                append_str(&mut v, "'this' is not valid in this scope");
                assert(v@ =~= "'this' is not valid in this scope"@);
                let msg = Message::new(Level::Error, chars_string(&v), meta.span);
                logger.log(msg);
            },
            ItemUseNode::Ident { name, hint, meta } => {
                let mut v: Vec<char> = Vec::new();
                append_str(&mut v, "Unknown item ");
                append_chars(&mut v, name);
                assert(v@ =~= "Unknown item "@ + name@);
                let msg = Message::new(Level::Error, chars_string(&v), meta.span);
                let msg = match hint {
                    PossibleMatch::NoMatch => msg,
                    PossibleMatch::Inaccessible(sp) => {
                        let mut n: Vec<char> = Vec::new();
                        append_str(&mut n, "Item ");
                        append_chars(&mut n, name);
                        append_str(&mut n, " is not accessible outside this function");
                        assert(n@ =~= "Item "@ + name@
                            + " is not accessible outside this function"@);
                        msg.note(Note::new_at(chars_string(&n), *sp))
                    },
                    PossibleMatch::NotYetDefined(sp) => {
                        let mut n: Vec<char> = Vec::new();
                        append_str(&mut n, "Item ");
                        append_chars(&mut n, name);
                        append_str(&mut n, " is defined later");
                        assert(n@ =~= "Item "@ + name@ + " is defined later"@);
                        msg.note(Note::new_at(chars_string(&n), *sp))
                    },
                    PossibleMatch::NearlyTheSameName(other, sp) => {
                        let mut n: Vec<char> = Vec::new();
                        append_str(&mut n, "A similarly named item '");
                        append_chars(&mut n, other);
                        append_str(&mut n, "' exists, did you mean that?");
                        assert(n@ =~= "A similarly named item '"@ + other@
                            + "' exists, did you mean that?"@);
                        msg.note(Note::new_at(chars_string(&n), *sp))
                    },
                };
                logger.log(msg);
            },
        }
    }
}

/// Adds the two unresolved-use counts, stopping at the largest count rather
/// than wrapping.
fn sat_add(a: usize, b: usize) -> (r: usize)
    ensures
        r == if a + b <= usize::MAX {
            a + b
        } else {
            usize::MAX as int
        },
        r >= a,
        r >= b,
{
    if a <= usize::MAX - b {
        a + b
    } else {
        usize::MAX
    }
}

/// A node that stands in the arena while the node it replaced is being
/// resolved.
fn placeholder_node() -> (r: AstNode) {
    AstNode::Atom(AtomNode::Void { meta: ExprMeta::builtin() })
}

/// The type a literal atom resolves to, independent of any scope state.
pub open spec fn literal_ty(n: AstNode) -> Option<Ty> {
    match n {
        AstNode::Atom(AtomNode::Str { .. }) => Some(Ty::Str),
        AstNode::Atom(AtomNode::Float { .. }) => Some(Ty::Float),
        AstNode::Atom(AtomNode::Int { .. }) => Some(Ty::Int),
        AstNode::Atom(AtomNode::Bool { .. }) => Some(Ty::Bool),
        AstNode::Atom(AtomNode::Void { .. }) => Some(Ty::Void),
        _ => None,
    }
}

/// Reports a node that could not be examined at all: a handle outside the
/// arena, a corrupt scope handle, or an exhausted recursion budget.
fn log_unresolvable(logger: &mut Logger)
    ensures
        final(logger).messages@.len() == old(logger).messages@.len() + 1,
{
    let mut v: Vec<char> = Vec::new();
    append_str(&mut v, "Unresolved expression");
    logger.log(Message::new(Level::Error, chars_string(&v), Span::zero()));
}

/// Resolves the node `h` names: either a concrete type, or "not yet
/// resolvable" together with how many identifier uses stayed unresolved
/// under it. When `report` is set, each unresolved use logs exactly one
/// diagnostic, so the returned count equals the number of messages added.
pub fn resolve_node(
    pool: &mut NodePool,
    checker: &mut Checker,
    logger: &mut Logger,
    h: usize,
    report: bool,
    fuel: usize,
) -> (r: (Option<Ty>, usize))
    requires
        old(checker).wf(),
        old(checker).stack_spec().len() > 0,
    ensures
        final(checker).wf(),
        final(checker).stack_spec() == old(checker).stack_spec(),
        final(pool)@.len() == old(pool)@.len(),
        r.0 is Some ==> r.1 == 0,
        r.0 is None ==> r.1 >= 1,
        report ==> final(logger).messages@.len() == old(logger).messages@.len() + r.1,
        report && r.0 is Some ==> final(logger).messages@ == old(logger).messages@,
        !report ==> final(logger).messages@ == old(logger).messages@,
        fuel >= 1 && h < old(pool)@.len() && literal_ty(old(pool)@[h as int]) is Some ==> r.0
            == literal_ty(old(pool)@[h as int]) && r.1 == 0 && final(pool)@[h as int] == old(
            pool,
        )@[h as int],
        fuel >= 1 && h < old(pool)@.len() ==> ({
            let node0 = old(pool)@[h as int];
            match node0 {
                AstNode::ItemUse(iu) => match iu {
                    ItemUseNode::Ident { name, hint, meta } => {
                        &&& r.0 == scan(old(checker).active(), name@, false, hint).0
                        &&& final(pool)@[h as int] == AstNode::ItemUse(
                            ItemUseNode::Ident {
                                name,
                                hint: scan(old(checker).active(), name@, false, hint).1,
                                meta,
                            },
                        )
                    },
                    ItemUseNode::This { meta } => r.0 == scan(
                        old(checker).active(),
                        "this"@,
                        false,
                        PossibleMatch::NoMatch,
                    ).0 && final(pool)@[h as int] == node0,
                },
                AstNode::Using(_) => r.0 == Some(Ty::Void) && r.1 == 0 && final(pool)@[h as int]
                    == node0,
                _ => true,
            }
        }),
    decreases fuel,
{
    if fuel == 0 {
        if report {
            log_unresolvable(logger);
        }
        return (None, 1);
    }
    if h >= pool.len() {
        if report {
            log_unresolvable(logger);
        }
        return (None, 1);
    }
    let node = pool.take(h, placeholder_node());
    match node {
        AstNode::ItemUse(mut item) => {
            let r = item.try_resolve_node(checker);
            let mut count: usize = 0;
            if r.is_none() {
                count = 1;
                if report {
                    item.log_unresolved_reason(logger);
                }
            }
            pool.set(h, AstNode::ItemUse(item));
            (r, count)
        },
        AstNode::Atom(atom) => {
            match atom {
                AtomNode::ClosedExpr { expr, meta } => {
                    pool.set(h, AstNode::Atom(AtomNode::ClosedExpr { expr, meta }));
                    resolve_node(pool, checker, logger, expr, report, fuel - 1)
                },
                AtomNode::Block { list, scope, meta } => {
                    let sh = match scope {
                        Some(sh) => sh,
                        None => checker.alloc_scope(ScopeLevel::Block),
                    };
                    pool.set(h, AstNode::Atom(AtomNode::Block { list, scope: Some(sh), meta }));
                    if sh >= checker.pool_len() || checker.on_stack(sh) {
                        if report {
                            log_unresolvable(logger);
                        }
                        return (None, 1);
                    }
                    checker.enter_scope(sh);
                    let r = resolve_node(pool, checker, logger, list, report, fuel - 1);
                    checker.exit_scope();
                    r
                },
                AtomNode::ItemUse { item, meta } => {
                    pool.set(h, AstNode::Atom(AtomNode::ItemUse { item, meta }));
                    resolve_node(pool, checker, logger, item, report, fuel - 1)
                },
                AtomNode::Str { text, meta } => {
                    pool.set(h, AstNode::Atom(AtomNode::Str { text, meta }));
                    (Some(Ty::Str), 0)
                },
                AtomNode::Float { text, meta } => {
                    pool.set(h, AstNode::Atom(AtomNode::Float { text, meta }));
                    (Some(Ty::Float), 0)
                },
                AtomNode::Int { text, meta } => {
                    pool.set(h, AstNode::Atom(AtomNode::Int { text, meta }));
                    (Some(Ty::Int), 0)
                },
                AtomNode::Bool { value, meta } => {
                    pool.set(h, AstNode::Atom(AtomNode::Bool { value, meta }));
                    (Some(Ty::Bool), 0)
                },
                AtomNode::Void { meta } => {
                    pool.set(h, AstNode::Atom(AtomNode::Void { meta }));
                    (Some(Ty::Void), 0)
                },
            }
        },
        AstNode::List(list) => {
            let exprs = list.exprs;
            let meta = list.meta;
            let n = exprs.len();
            pool.set(h, AstNode::List(ExprList { exprs, meta }));
            let mut i: usize = 0;
            let mut count: usize = 0;
            let mut last_ty = Ty::Void;
            let ghost log0 = logger.messages@;
            while i < n
                invariant
                    checker.wf(),
                    checker.stack_spec() == old(checker).stack_spec(),
                    checker.stack_spec().len() > 0,
                    h < pool@.len(),
                    pool@.len() == old(pool)@.len(),
                    report ==> logger.messages@.len() == log0.len() + count,
                    report && count == 0 ==> logger.messages@ == log0,
                    !report ==> logger.messages@ == log0,
                    fuel >= 1,
                decreases n - i,
            {
                let eh = {
                    match pool.get(h) {
                        AstNode::List(l) => {
                            if i < l.exprs.len() {
                                l.exprs[i]
                            } else {
                                usize::MAX
                            }
                        },
                        _ => usize::MAX,
                    }
                };
                let (cr, cc) = resolve_node(pool, checker, logger, eh, report, fuel - 1);
                match cr {
                    Some(t) => {
                        last_ty = t;
                    },
                    None => {},
                }
                proof {
                    if report {
                        vstd::std_specs::vec::axiom_spec_len(&logger.messages);
                    }
                }
                count = sat_add(count, cc);
                i += 1;
            }
            if count > 0 {
                (None, count)
            } else {
                (Some(last_ty), 0)
            }
        },
        AstNode::Expr(e) => {
            match e {
                Expr::Let(l, meta) => {
                    pool.set(h, AstNode::Expr(Expr::Let(l, meta)));
                    resolve_node(pool, checker, logger, l, report, fuel - 1)
                },
                Expr::Flow(f, meta) => {
                    pool.set(h, AstNode::Expr(Expr::Flow(f, meta)));
                    resolve_node(pool, checker, logger, f, report, fuel - 1)
                },
                Expr::Atom(a, meta) => {
                    pool.set(h, AstNode::Expr(Expr::Atom(a, meta)));
                    resolve_node(pool, checker, logger, a, report, fuel - 1)
                },
            }
        },
        AstNode::Let(l) => {
            let name = l.name;
            let value = l.value;
            let meta = l.meta;
            let name2 = clone_chars(&name);
            pool.set(h, AstNode::Let(LetDecl { name, value, meta }));
            let (vr, vc) = resolve_node(pool, checker, logger, value, report, fuel - 1);
            match vr {
                Some(ty) => {
                    checker.declare(name2, Entity::new(ty, meta.span, true));
                    (Some(Ty::Void), 0)
                },
                None => (None, vc),
            }
        },
        AstNode::Flow(f) => {
            match f {
                Flow::If(n, meta) => {
                    pool.set(h, AstNode::Flow(Flow::If(n, meta)));
                    resolve_node(pool, checker, logger, n, report, fuel - 1)
                },
                Flow::Return(n, meta) => {
                    pool.set(h, AstNode::Flow(Flow::Return(n, meta)));
                    resolve_node(pool, checker, logger, n, report, fuel - 1)
                },
                Flow::UsingItem(n, meta) => {
                    pool.set(h, AstNode::Flow(Flow::UsingItem(n, meta)));
                    resolve_node(pool, checker, logger, n, report, fuel - 1)
                },
            }
        },
        AstNode::If(node) => {
            let cond = node.cond;
            let truthy = node.truthy;
            let falsy = node.falsy;
            pool.set(h, AstNode::If(node));
            let (r1, c1) = resolve_node(pool, checker, logger, cond, report, fuel - 1);
            let (r2, c2) = resolve_node(pool, checker, logger, truthy, report, fuel - 1);
            proof {
                if report {
                    vstd::std_specs::vec::axiom_spec_len(&logger.messages);
                }
            }
            let mut count = sat_add(c1, c2);
            let mut all = r1.is_some() && r2.is_some();
            match falsy {
                Some(fh) => {
                    let (r3, c3) = resolve_node(pool, checker, logger, fh, report, fuel - 1);
                    proof {
                        if report {
                            vstd::std_specs::vec::axiom_spec_len(&logger.messages);
                        }
                    }
                    count = sat_add(count, c3);
                    all = all && r3.is_some();
                },
                None => {},
            }
            if all {
                (Some(Ty::Void), 0)
            } else {
                (None, count)
            }
        },
        AstNode::Else(node) => {
            match node {
                Else::Else(b, meta) => {
                    pool.set(h, AstNode::Else(Else::Else(b, meta)));
                    resolve_node(pool, checker, logger, b, report, fuel - 1)
                },
                Else::ElseIf(n, meta) => {
                    pool.set(h, AstNode::Else(Else::ElseIf(n, meta)));
                    resolve_node(pool, checker, logger, n, report, fuel - 1)
                },
            }
        },
        AstNode::Return(node) => {
            let expr = node.expr;
            pool.set(h, AstNode::Return(node));
            match expr {
                Some(eh) => {
                    let (r1, c1) = resolve_node(pool, checker, logger, eh, report, fuel - 1);
                    match r1 {
                        Some(_) => (Some(Ty::Void), 0),
                        None => (None, c1),
                    }
                },
                None => (Some(Ty::Void), 0),
            }
        },
        AstNode::Using(node) => {
            pool.set(h, AstNode::Using(node));
            (Some(Ty::Void), 0)
        },
    }
}

/// Drives resolution of the tree rooted at `h` to a fixpoint: passes repeat
/// while they make progress; when one makes none (or resolution yields
/// nothing usable), a final reporting pass logs each remaining unresolved
/// use with its ranked explanation. A usable type is returned with nothing
/// logged; the invalid type is returned only together with at least one
/// diagnostic.
pub fn check_coherency(list: &mut NodePool, h: usize, logger: &mut Logger) -> (r: Ty)
    ensures
        final(list)@.len() == old(list)@.len(),
        final(logger).messages@.len() >= old(logger).messages@.len(),
        r != Ty::Invalid ==> final(logger).messages@ == old(logger).messages@,
        r == Ty::Invalid ==> final(logger).messages@.len() > old(logger).messages@.len(),
        h < old(list)@.len() && literal_ty(old(list)@[h as int]) is Some ==> r == literal_ty(
            old(list)@[h as int],
        )->0,
{
    let mut checker = Checker::new();
    let fuel = if list.len() < usize::MAX - 1 {
        list.len() + 1
    } else {
        usize::MAX
    };
    let mut prev = usize::MAX;
    loop
        invariant
            checker.wf(),
            checker.stack_spec().len() == 1,
            list@.len() == old(list)@.len(),
            logger.messages@ == old(logger).messages@,
            fuel >= 1,
            h < list@.len() && literal_ty(old(list)@[h as int]) is Some ==> list@[h as int] == old(
                list,
            )@[h as int],
        decreases prev,
    {
        let mut scratch = Logger::new();
        let (r, c) = resolve_node(list, &mut checker, &mut scratch, h, false, fuel);
        let progress = match &r {
            Some(_) => false,
            None => c < prev,
        };
        match r {
            Some(ty) => {
                if !matches!(ty, Ty::Invalid) {
                    return ty;
                }
            },
            None => {},
        }
        if progress {
            prev = c;
        } else {
            let (r2, _c2) = resolve_node(list, &mut checker, logger, h, true, fuel);
            match r2 {
                Some(ty2) => {
                    if !matches!(ty2, Ty::Invalid) {
                        return ty2;
                    }
                    log_unresolvable(logger);
                    return Ty::Invalid;
                },
                None => {
                    return Ty::Invalid;
                },
            }
        }
    }
}

/// Parses one identifier use: the self-reference keyword or an identifier.
pub fn parse_item_use(parser: &mut Parser<'_>, pool: &mut NodePool) -> (r: Result<
    ItemUseNode,
    Message,
>)
    requires
        old(parser).wf(),
    ensures
        final(parser).wf(),
        final(parser).same_src(old(parser)),
        final(pool)@.len() >= old(pool)@.len(),
        r is Err ==> final(parser).spec_pos() == old(parser).spec_pos(),
        r is Ok ==> final(parser).spec_pos() > old(parser).spec_pos(),
        r is Ok ==> ({
            let s = old(parser).text();
            let start = crate::parser::ws_end(s, old(parser).spec_pos());
            match crate::parser::classify_word(s, start) {
                Some(we) => final(parser).spec_pos() == we.1 && (match r->Ok_0 {
                    ItemUseNode::Ident { name, hint, meta } => name@ == we.0 && hint is NoMatch,
                    ItemUseNode::This { meta } => we.0 == "this"@,
                }),
                None => false,
            }
        }),
    decreases parser.text().len() - parser.spec_pos(), 1int,
{
    let start = parser.pos();
    let ghost s0 = parser.text();
    let ghost p0 = parser.spec_pos();
    let ws = parser.skip_ws();
    proof {
        crate::parser::lemma_ws_end(s0, p0);
        crate::parser::lemma_ws_end_idem(s0, p0);
    }
    let w = match parser.next_word("identifier") {
        Ok(w) => w,
        Err(e) => {
            parser.goto(start);
            return Err(e);
        },
    };
    let chars = str_chars(w.as_str());
    if chars.len() > 0 && is_ident_start_ch(chars[0]) {
        let meta = parser.get_meta(ws);
        if w == "this".to_owned() {
            Ok(ItemUseNode::This { meta })
        } else {
            Ok(ItemUseNode::Ident { name: chars, hint: PossibleMatch::NoMatch, meta })
        }
    } else {
        parser.goto(start);
        let mut v: Vec<char> = Vec::new();
        append_str(&mut v, "Expected identifier");
        Err(parser.error(start, chars_string(&v)))
    }
}

/// Parses one atom: a parenthesized expression, a braced block, a string,
/// an integer, a boolean, the void literal, or an identifier use.
pub fn parse_atom(parser: &mut Parser<'_>, pool: &mut NodePool) -> (r: Result<AtomNode, Message>)
    requires
        old(parser).wf(),
    ensures
        final(parser).wf(),
        final(parser).same_src(old(parser)),
        final(pool)@.len() >= old(pool)@.len(),
        r is Err ==> final(parser).spec_pos() == old(parser).spec_pos(),
        r is Ok ==> final(parser).spec_pos() > old(parser).spec_pos(),
    decreases parser.text().len() - parser.spec_pos(), 2int,
{
    let start = parser.pos();
    match parser.expect_word("(") {
        Ok(_) => {
            let e = match parse_expr(parser, pool) {
                Ok(e) => e,
                Err(e) => {
                    parser.goto(start);
                    return Err(e);
                },
            };
            match parser.expect_word(")") {
                Ok(_) => {},
                Err(e) => {
                    parser.goto(start);
                    return Err(e);
                },
            }
            let eh = pool.add(AstNode::Expr(e));
            return Ok(AtomNode::ClosedExpr { expr: eh, meta: parser.get_meta(start) });
        },
        Err(_) => {
            parser.goto(start);
        },
    }
    match parser.expect_word("{") {
        Ok(_) => {
            let el = match parse_expr_list(parser, pool) {
                Ok(el) => el,
                Err(e) => {
                    parser.goto(start);
                    return Err(e);
                },
            };
            match parser.expect_word("}") {
                Ok(_) => {},
                Err(e) => {
                    parser.goto(start);
                    return Err(e);
                },
            }
            let lh = pool.add(AstNode::List(el));
            return Ok(AtomNode::Block { list: lh, scope: None, meta: parser.get_meta(start) });
        },
        Err(_) => {
            parser.goto(start);
        },
    }
    parser.skip_ws();
    match parser.expect_ch('"') {
        Ok(_) => {
            let mut text: Vec<char> = Vec::new();
            let mut done = false;
            while !done
                invariant
                    parser.wf(),
                    parser.same_src(old(parser)),
                    start == old(parser).spec_pos(),
                    start <= old(parser).text().len(),
                    parser.spec_pos() > old(parser).spec_pos(),
                    pool@.len() >= old(pool)@.len(),
                decreases parser.text().len() - parser.spec_pos() + (if done {
                    0int
                } else {
                    1int
                }),
            {
                match parser.expect_ch('"') {
                    Ok(_) => {
                        done = true;
                    },
                    Err(_) => {
                        match parser.expect_not_ch('"') {
                            Ok(c) => {
                                text.push(c);
                            },
                            Err(e) => {
                                parser.goto(start);
                                return Err(e);
                            },
                        }
                    },
                }
            }
            return Ok(AtomNode::Str { text, meta: parser.get_meta(start) });
        },
        Err(_) => {
            parser.goto(start);
        },
    }
    parser.skip_ws();
    let first_digit = match parser.peek() {
        Some(c) => '0' <= c && c <= '9',
        None => false,
    };
    if first_digit {
        let mut text: Vec<char> = Vec::new();
        let mut done = false;
        while !done
            invariant
                parser.wf(),
                parser.same_src(old(parser)),
                start == old(parser).spec_pos(),
                start <= old(parser).text().len(),
                parser.spec_pos() >= old(parser).spec_pos(),
                pool@.len() >= old(pool)@.len(),
                done ==> parser.spec_pos() > old(parser).spec_pos(),
                text@.len() > 0 ==> parser.spec_pos() > old(parser).spec_pos(),
            decreases parser.text().len() - parser.spec_pos() + (if done {
                0int
            } else {
                1int
            }),
        {
            match parser.expect_ch_range('0', '9') {
                Ok(c) => {
                    text.push(c);
                },
                Err(_) => {
                    if text.len() == 0 {
                        parser.goto(start);
                        let mut v: Vec<char> = Vec::new();
                        append_str(&mut v, "Expected expression");
                        return Err(parser.error(start, chars_string(&v)));
                    }
                    done = true;
                },
            }
        }
        return Ok(AtomNode::Int { text, meta: parser.get_meta(start) });
    }
    let w = match parser.next_word("expression") {
        Ok(w) => w,
        Err(e) => {
            parser.goto(start);
            return Err(e);
        },
    };
    let chars = str_chars(w.as_str());
    if w == "true".to_owned() {
        return Ok(AtomNode::Bool { value: true, meta: parser.get_meta(start) });
    }
    if w == "false".to_owned() {
        return Ok(AtomNode::Bool { value: false, meta: parser.get_meta(start) });
    }
    if w == "void".to_owned() {
        return Ok(AtomNode::Void { meta: parser.get_meta(start) });
    }
    if chars.len() > 0 && is_ident_start_ch(chars[0]) {
        parser.goto(start);
        let item = match parse_item_use(parser, pool) {
            Ok(i) => i,
            Err(e) => {
                parser.goto(start);
                return Err(e);
            },
        };
        let ih = pool.add(AstNode::ItemUse(item));
        return Ok(AtomNode::ItemUse { item: ih, meta: parser.get_meta(start) });
    }
    parser.goto(start);
    let mut v: Vec<char> = Vec::new();
    append_str(&mut v, "Expected expression");
    Err(parser.error(start, chars_string(&v)))
}

/// Parses a braced expression list and stores it as a block atom.
fn parse_block(parser: &mut Parser<'_>, pool: &mut NodePool) -> (r: Result<usize, Message>)
    requires
        old(parser).wf(),
    ensures
        final(parser).wf(),
        final(parser).same_src(old(parser)),
        final(pool)@.len() >= old(pool)@.len(),
        r is Err ==> final(parser).spec_pos() == old(parser).spec_pos(),
        r is Ok ==> final(parser).spec_pos() > old(parser).spec_pos(),
        r is Ok ==> r->Ok_0 < final(pool)@.len(),
    decreases parser.text().len() - parser.spec_pos(), 2int,
{
    let start = parser.pos();
    match parser.expect_word("{") {
        Ok(_) => {},
        Err(e) => {
            parser.goto(start);
            return Err(e);
        },
    }
    let el = match parse_expr_list(parser, pool) {
        Ok(el) => el,
        Err(e) => {
            parser.goto(start);
            return Err(e);
        },
    };
    match parser.expect_word("}") {
        Ok(_) => {},
        Err(e) => {
            parser.goto(start);
            return Err(e);
        },
    }
    let lh = pool.add(AstNode::List(el));
    let bh = pool.add(
        AstNode::Atom(AtomNode::Block { list: lh, scope: None, meta: parser.get_meta(start) }),
    );
    Ok(bh)
}

/// Parses an `if` with its condition, braced body, and optional `else`.
pub fn parse_if(parser: &mut Parser<'_>, pool: &mut NodePool) -> (r: Result<If, Message>)
    requires
        old(parser).wf(),
    ensures
        final(parser).wf(),
        final(parser).same_src(old(parser)),
        final(pool)@.len() >= old(pool)@.len(),
        r is Err ==> final(parser).spec_pos() == old(parser).spec_pos(),
        r is Ok ==> final(parser).spec_pos() > old(parser).spec_pos(),
    decreases parser.text().len() - parser.spec_pos(), 3int,
{
    let start = parser.pos();
    match parser.expect_word("if") {
        Ok(_) => {},
        Err(e) => {
            parser.goto(start);
            return Err(e);
        },
    }
    let cond = match parse_expr(parser, pool) {
        Ok(c) => c,
        Err(e) => {
            parser.goto(start);
            return Err(e);
        },
    };
    let ch = pool.add(AstNode::Expr(cond));
    let bh = match parse_block(parser, pool) {
        Ok(b) => b,
        Err(e) => {
            parser.goto(start);
            return Err(e);
        },
    };
    let save = parser.pos();
    let falsy = match parser.expect_word("else") {
        Ok(_) => {
            let el = match parse_else(parser, pool) {
                Ok(el) => el,
                Err(e) => {
                    parser.goto(start);
                    return Err(e);
                },
            };
            Some(pool.add(AstNode::Else(el)))
        },
        Err(_) => {
            parser.goto(save);
            None
        },
    };
    Ok(If { cond: ch, truthy: bh, falsy, meta: parser.get_meta(start) })
}

/// Parses what follows `else`: a braced block or a chained `if`.
pub fn parse_else(parser: &mut Parser<'_>, pool: &mut NodePool) -> (r: Result<Else, Message>)
    requires
        old(parser).wf(),
    ensures
        final(parser).wf(),
        final(parser).same_src(old(parser)),
        final(pool)@.len() >= old(pool)@.len(),
        r is Err ==> final(parser).spec_pos() == old(parser).spec_pos(),
        r is Ok ==> final(parser).spec_pos() > old(parser).spec_pos(),
    decreases parser.text().len() - parser.spec_pos(), 4int,
{
    let start = parser.pos();
    match parse_block(parser, pool) {
        Ok(bh) => {
            return Ok(Else::Else(bh, parser.get_meta(start)));
        },
        Err(_) => {
            parser.goto(start);
        },
    }
    match parse_if(parser, pool) {
        Ok(i) => {
            let ih = pool.add(AstNode::If(i));
            Ok(Else::ElseIf(ih, parser.get_meta(start)))
        },
        Err(_) => {
            parser.goto(start);
            let mut v: Vec<char> = Vec::new();
            append_str(&mut v, "Expected block or if statement");
            Err(parser.error(start, chars_string(&v)))
        },
    }
}

/// Parses a `return` with an optional value.
pub fn parse_return(parser: &mut Parser<'_>, pool: &mut NodePool) -> (r: Result<Return, Message>)
    requires
        old(parser).wf(),
    ensures
        final(parser).wf(),
        final(parser).same_src(old(parser)),
        final(pool)@.len() >= old(pool)@.len(),
        r is Err ==> final(parser).spec_pos() == old(parser).spec_pos(),
        r is Ok ==> final(parser).spec_pos() > old(parser).spec_pos(),
    decreases parser.text().len() - parser.spec_pos(), 3int,
{
    let start = parser.pos();
    match parser.expect_word("return") {
        Ok(_) => {},
        Err(e) => {
            parser.goto(start);
            return Err(e);
        },
    }
    let save = parser.pos();
    let expr = match parse_expr(parser, pool) {
        Ok(e) => Some(pool.add(AstNode::Expr(e))),
        Err(_) => {
            parser.goto(save);
            None
        },
    };
    Ok(Return { expr, meta: parser.get_meta(start) })
}

/// Parses a `using` item naming a possibly absolute `::`-separated path.
pub fn parse_using(parser: &mut Parser<'_>, pool: &mut NodePool) -> (r: Result<UsingItem, Message>)
    requires
        old(parser).wf(),
    ensures
        final(parser).wf(),
        final(parser).same_src(old(parser)),
        final(pool)@.len() >= old(pool)@.len(),
        r is Err ==> final(parser).spec_pos() == old(parser).spec_pos(),
        r is Ok ==> final(parser).spec_pos() > old(parser).spec_pos(),
    decreases parser.text().len() - parser.spec_pos(), 3int,
{
    let start = parser.pos();
    match parser.expect_word("using") {
        Ok(_) => {},
        Err(e) => {
            parser.goto(start);
            return Err(e);
        },
    }
    let save0 = parser.pos();
    let absolute = match parser.expect_word("::") {
        Ok(_) => true,
        Err(_) => {
            parser.goto(save0);
            false
        },
    };
    let mut path: Vec<Vec<char>> = Vec::new();
    let mut done = false;
    while !done
        invariant
            parser.wf(),
            parser.same_src(old(parser)),
            start == old(parser).spec_pos(),
            start <= old(parser).text().len(),
            parser.spec_pos() > old(parser).spec_pos(),
            pool@.len() >= old(pool)@.len(),
        decreases parser.text().len() - parser.spec_pos() + (if done {
            0int
        } else {
            1int
        }),
    {
        let w = match parser.next_word("identifier") {
            Ok(w) => w,
            Err(e) => {
                parser.goto(start);
                return Err(e);
            },
        };
        let chars = str_chars(w.as_str());
        if chars.len() > 0 && is_ident_start_ch(chars[0]) {
            path.push(chars);
        } else {
            parser.goto(start);
            let mut v: Vec<char> = Vec::new();
            append_str(&mut v, "Expected identifier");
            return Err(parser.error(start, chars_string(&v)));
        }
        let save = parser.pos();
        match parser.expect_word("::") {
            Ok(_) => {},
            Err(_) => {
                parser.goto(save);
                done = true;
            },
        }
    }
    Ok(UsingItem { absolute, path, meta: parser.get_meta(start) })
}

/// Parses one control-flow expression.
pub fn parse_flow(parser: &mut Parser<'_>, pool: &mut NodePool) -> (r: Result<Flow, Message>)
    requires
        old(parser).wf(),
    ensures
        final(parser).wf(),
        final(parser).same_src(old(parser)),
        final(pool)@.len() >= old(pool)@.len(),
        r is Err ==> final(parser).spec_pos() == old(parser).spec_pos(),
        r is Ok ==> final(parser).spec_pos() > old(parser).spec_pos(),
    decreases parser.text().len() - parser.spec_pos(), 4int,
{
    let start = parser.pos();
    match parse_if(parser, pool) {
        Ok(i) => {
            let m = i.meta;
            return Ok(Flow::If(pool.add(AstNode::If(i)), m));
        },
        Err(_) => {
            parser.goto(start);
        },
    }
    match parse_return(parser, pool) {
        Ok(rt) => {
            let m = rt.meta;
            return Ok(Flow::Return(pool.add(AstNode::Return(rt)), m));
        },
        Err(_) => {
            parser.goto(start);
        },
    }
    match parse_using(parser, pool) {
        Ok(u) => {
            let m = u.meta;
            return Ok(Flow::UsingItem(pool.add(AstNode::Using(u)), m));
        },
        Err(_) => {
            parser.goto(start);
            let mut v: Vec<char> = Vec::new();
            append_str(&mut v, "Expected control flow expression");
            Err(parser.error(start, chars_string(&v)))
        },
    }
}

/// Parses a `let` declaration.
pub fn parse_let(parser: &mut Parser<'_>, pool: &mut NodePool) -> (r: Result<LetDecl, Message>)
    requires
        old(parser).wf(),
    ensures
        final(parser).wf(),
        final(parser).same_src(old(parser)),
        final(pool)@.len() >= old(pool)@.len(),
        r is Err ==> final(parser).spec_pos() == old(parser).spec_pos(),
        r is Ok ==> final(parser).spec_pos() > old(parser).spec_pos(),
    decreases parser.text().len() - parser.spec_pos(), 4int,
{
    let start = parser.pos();
    match parser.expect_word("let") {
        Ok(_) => {},
        Err(e) => {
            parser.goto(start);
            return Err(e);
        },
    }
    let w = match parser.next_word("identifier") {
        Ok(w) => w,
        Err(e) => {
            parser.goto(start);
            return Err(e);
        },
    };
    let name = str_chars(w.as_str());
    if !(name.len() > 0 && is_ident_start_ch(name[0])) {
        parser.goto(start);
        let mut v: Vec<char> = Vec::new();
        append_str(&mut v, "Expected identifier");
        return Err(parser.error(start, chars_string(&v)));
    }
    match parser.expect_word("=") {
        Ok(_) => {},
        Err(e) => {
            parser.goto(start);
            return Err(e);
        },
    }
    let value = match parse_expr(parser, pool) {
        Ok(e) => pool.add(AstNode::Expr(e)),
        Err(e) => {
            parser.goto(start);
            return Err(e);
        },
    };
    Ok(LetDecl { name, value, meta: parser.get_meta(start) })
}

/// Parses one expression: a declaration, a control-flow construct, or an
/// atom.
pub fn parse_expr(parser: &mut Parser<'_>, pool: &mut NodePool) -> (r: Result<Expr, Message>)
    requires
        old(parser).wf(),
    ensures
        final(parser).wf(),
        final(parser).same_src(old(parser)),
        final(pool)@.len() >= old(pool)@.len(),
        r is Err ==> final(parser).spec_pos() == old(parser).spec_pos(),
        r is Ok ==> final(parser).spec_pos() > old(parser).spec_pos(),
    decreases parser.text().len() - parser.spec_pos(), 5int,
{
    let start = parser.pos();
    match parse_let(parser, pool) {
        Ok(l) => {
            let m = l.meta;
            return Ok(Expr::Let(pool.add(AstNode::Let(l)), m));
        },
        Err(_) => {
            parser.goto(start);
        },
    }
    match parse_flow(parser, pool) {
        Ok(f) => {
            let m = match &f {
                Flow::If(_, m) => *m,
                Flow::Return(_, m) => *m,
                Flow::UsingItem(_, m) => *m,
            };
            return Ok(Expr::Flow(pool.add(AstNode::Flow(f)), m));
        },
        Err(_) => {
            parser.goto(start);
        },
    }
    match parse_atom(parser, pool) {
        Ok(a) => {
            let m = a.meta_copy();
            Ok(Expr::Atom(pool.add(AstNode::Atom(a)), m))
        },
        Err(e) => {
            parser.goto(start);
            Err(e)
        },
    }
}

/// Parses expressions separated by `;` until a closing brace or the end of
/// the input.
pub fn parse_expr_list(parser: &mut Parser<'_>, pool: &mut NodePool) -> (r: Result<
    ExprList,
    Message,
>)
    requires
        old(parser).wf(),
    ensures
        final(parser).wf(),
        final(parser).same_src(old(parser)),
        final(pool)@.len() >= old(pool)@.len(),
        r is Err ==> final(parser).spec_pos() == old(parser).spec_pos(),
        r is Ok ==> final(parser).spec_pos() >= old(parser).spec_pos(),
    decreases parser.text().len() - parser.spec_pos(), 6int,
{
    let start = parser.pos();
    let mut exprs: Vec<usize> = Vec::new();
    let mut done = false;
    while !done
        invariant
            parser.wf(),
            parser.same_src(old(parser)),
            start == old(parser).spec_pos(),
            start <= old(parser).text().len(),
            parser.spec_pos() >= old(parser).spec_pos(),
            pool@.len() >= old(pool)@.len(),
        decreases parser.text().len() - parser.spec_pos() + (if done {
            0int
        } else {
            1int
        }),
    {
        let eof = parser.is_eof();
        let at_brace = match parser.peek() {
            Some(c) => c == '}',
            None => false,
        };
        if eof || at_brace {
            done = true;
        } else {
            let e = match parse_expr(parser, pool) {
                Ok(e) => e,
                Err(er) => {
                    parser.goto(start);
                    return Err(er);
                },
            };
            let eh = pool.add(AstNode::Expr(e));
            exprs.push(eh);
            let save = parser.pos();
            match parser.expect_word(";") {
                Ok(_) => {},
                Err(_) => {
                    parser.goto(save);
                },
            }
        }
    }
    Ok(ExprList { exprs, meta: parser.get_meta(start) })
}

impl AtomNode {
    /// This atom's source location.
    pub fn meta_copy(&self) -> (r: ExprMeta) {
        match self {
            AtomNode::ClosedExpr { meta, .. } => *meta,
            AtomNode::Block { meta, .. } => *meta,
            AtomNode::ItemUse { meta, .. } => *meta,
            AtomNode::Str { meta, .. } => *meta,
            AtomNode::Float { meta, .. } => *meta,
            AtomNode::Int { meta, .. } => *meta,
            AtomNode::Bool { meta, .. } => *meta,
            AtomNode::Void { meta, .. } => *meta,
        }
    }
}

impl Expr {
    /// This expression's source location.
    pub fn meta_copy(&self) -> (r: ExprMeta) {
        match self {
            Expr::Let(_, m) => *m,
            Expr::Flow(_, m) => *m,
            Expr::Atom(_, m) => *m,
        }
    }
}

impl Rule for If {
    fn expect(parser: &mut Parser<'_>, pool: &mut NodePool) -> (r: Result<Self, Message>) {
        parse_if(parser, pool)
    }

    fn meta(&self) -> &ExprMeta {
        &self.meta
    }
}

impl Rule for Else {
    fn expect(parser: &mut Parser<'_>, pool: &mut NodePool) -> (r: Result<Self, Message>) {
        parse_else(parser, pool)
    }

    fn meta(&self) -> &ExprMeta {
        match self {
            Else::Else(_, m) => m,
            Else::ElseIf(_, m) => m,
        }
    }
}

impl Rule for Return {
    fn expect(parser: &mut Parser<'_>, pool: &mut NodePool) -> (r: Result<Self, Message>) {
        parse_return(parser, pool)
    }

    fn meta(&self) -> &ExprMeta {
        &self.meta
    }
}

impl Rule for UsingItem {
    fn expect(parser: &mut Parser<'_>, pool: &mut NodePool) -> (r: Result<Self, Message>) {
        parse_using(parser, pool)
    }

    fn meta(&self) -> &ExprMeta {
        &self.meta
    }
}

impl Rule for Flow {
    fn expect(parser: &mut Parser<'_>, pool: &mut NodePool) -> (r: Result<Self, Message>) {
        parse_flow(parser, pool)
    }

    fn meta(&self) -> &ExprMeta {
        match self {
            Flow::If(_, m) => m,
            Flow::Return(_, m) => m,
            Flow::UsingItem(_, m) => m,
        }
    }
}

impl Rule for ItemUseNode {
    fn expect(parser: &mut Parser<'_>, pool: &mut NodePool) -> (r: Result<Self, Message>) {
        parse_item_use(parser, pool)
    }

    fn meta(&self) -> &ExprMeta {
        match self {
            ItemUseNode::This { meta } => meta,
            ItemUseNode::Ident { meta, .. } => meta,
        }
    }
}

impl Rule for AtomNode {
    fn expect(parser: &mut Parser<'_>, pool: &mut NodePool) -> (r: Result<Self, Message>) {
        parse_atom(parser, pool)
    }

    fn meta(&self) -> &ExprMeta {
        match self {
            AtomNode::ClosedExpr { meta, .. } => meta,
            AtomNode::Block { meta, .. } => meta,
            AtomNode::ItemUse { meta, .. } => meta,
            AtomNode::Str { meta, .. } => meta,
            AtomNode::Float { meta, .. } => meta,
            AtomNode::Int { meta, .. } => meta,
            AtomNode::Bool { meta, .. } => meta,
            AtomNode::Void { meta, .. } => meta,
        }
    }
}

impl Rule for Expr {
    fn expect(parser: &mut Parser<'_>, pool: &mut NodePool) -> (r: Result<Self, Message>) {
        parse_expr(parser, pool)
    }

    fn meta(&self) -> &ExprMeta {
        match self {
            Expr::Let(_, m) => m,
            Expr::Flow(_, m) => m,
            Expr::Atom(_, m) => m,
        }
    }
}

impl Rule for ExprList {
    fn expect(parser: &mut Parser<'_>, pool: &mut NodePool) -> (r: Result<Self, Message>) {
        parse_expr_list(parser, pool)
    }

    fn meta(&self) -> &ExprMeta {
        &self.meta
    }
}

} // verus!
