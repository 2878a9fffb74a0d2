//! The scope-based name-resolution engine: a stack of lexical scopes of
//! entities, searched outward with shadowing, forward-reference and
//! cross-function visibility rules, accumulating a ranked diagnostic hint.

use vstd::prelude::*;
use crate::entity::{Entity, Ty};
use crate::ast::PossibleMatch;
use crate::text::chars_eq;

verus! {

/// How strongly a scope nests: a block, a function body, or the global
/// scope. A search that leaves a function-level-or-stronger scope crosses a
/// function boundary.
#[derive(Clone, Copy, PartialEq, Eq, Structural, Debug)]
pub enum ScopeLevel {
    Block,
    Function,
    Global,
}

impl ScopeLevel {
    /// Whether leaving a scope of this level crosses a function boundary.
    pub open spec fn crosses_spec(&self) -> bool {
        !(self is Block)
    }

    pub fn crosses_function(&self) -> (r: bool)
        ensures
            r == self.crosses_spec(),
    {
        match self {
            ScopeLevel::Block => false,
            ScopeLevel::Function => true,
            ScopeLevel::Global => true,
        }
    }
}

/// First-match lookup in the parallel name/entity lists, from index `i` on.
pub open spec fn find_at(
    names: Seq<Vec<char>>,
    ents: Seq<Entity>,
    nm: Seq<char>,
    i: int,
) -> Option<Entity>
    decreases names.len() - i,
    when 0 <= i <= names.len()
{
    if i >= names.len() {
        None
    } else if names[i]@ == nm {
        Some(ents[i])
    } else {
        find_at(names, ents, nm, i + 1)
    }
}

proof fn lemma_find_at_first(names: Seq<Vec<char>>, ents: Seq<Entity>, nm: Seq<char>, i: int, j: int)
    requires
        0 <= j <= i < names.len(),
        names[i]@ == nm,
        forall|k: int| j <= k < i ==> names[k]@ != nm,
    ensures
        find_at(names, ents, nm, j) == Some(ents[i]),
    decreases i - j,
{
    if j < i {
        lemma_find_at_first(names, ents, nm, i, j + 1);
    }
}

proof fn lemma_find_at_none(names: Seq<Vec<char>>, ents: Seq<Entity>, nm: Seq<char>, j: int)
    requires
        0 <= j <= names.len(),
        forall|k: int| j <= k < names.len() ==> names[k]@ != nm,
    ensures
        find_at(names, ents, nm, j) is None,
    decreases names.len() - j,
{
    if j < names.len() {
        lemma_find_at_none(names, ents, nm, j + 1);
    }
}

proof fn lemma_find_at_update(
    names: Seq<Vec<char>>,
    ents: Seq<Entity>,
    i: int,
    e: Entity,
    nm2: Seq<char>,
    j: int,
)
    requires
        0 <= j <= names.len(),
        names.len() == ents.len(),
        0 <= i < names.len(),
        names[i]@ != nm2,
    ensures
        find_at(names, ents.update(i, e), nm2, j) == find_at(names, ents, nm2, j),
    decreases names.len() - j,
{
    if j < names.len() && names[j]@ != nm2 {
        lemma_find_at_update(names, ents, i, e, nm2, j + 1);
    }
}

proof fn lemma_find_at_push(
    names: Seq<Vec<char>>,
    ents: Seq<Entity>,
    nm0: Vec<char>,
    e: Entity,
    nm2: Seq<char>,
    j: int,
)
    requires
        0 <= j <= names.len(),
        names.len() == ents.len(),
    ensures
        find_at(names.push(nm0), ents.push(e), nm2, j) == (if find_at(names, ents, nm2, j)
            is Some {
            find_at(names, ents, nm2, j)
        } else if nm0@ == nm2 {
            Some(e)
        } else {
            None
        }),
    decreases names.len() - j,
{
    if j < names.len() {
        assert(names.push(nm0)[j] == names[j]);
        assert(ents.push(e)[j] == ents[j]);
        lemma_find_at_push(names, ents, nm0, e, nm2, j + 1);
    } else {
        assert(names.push(nm0)[j] == nm0);
        assert(ents.push(e)[j] == e);
        if nm0@ != nm2 {
            assert(find_at(names.push(nm0), ents.push(e), nm2, j + 1) is None);
        }
        assert(find_at(names, ents, nm2, j) is None);
    }
}

/// One lexical scope: a level tag and a name-to-entity mapping, kept as
/// parallel lists searched first-match.
pub struct Scope {
    level: ScopeLevel,
    names: Vec<Vec<char>>,
    entities: Vec<Entity>,
}

impl Scope {
    pub closed spec fn level_spec(&self) -> ScopeLevel {
        self.level
    }

    pub fn level(&self) -> (r: ScopeLevel)
        ensures
            r == self.level_spec(),
    {
        self.level
    }

    pub closed spec fn names_spec(&self) -> Seq<Vec<char>> {
        self.names@
    }

    pub closed spec fn entities_spec(&self) -> Seq<Entity> {
        self.entities@
    }

    /// The two parallel lists always line up.
    pub open spec fn wf(&self) -> bool {
        self.names_spec().len() == self.entities_spec().len()
    }

    /// The entity this scope binds `nm` to, if any.
    pub open spec fn find_spec(&self, nm: Seq<char>) -> Option<Entity> {
        find_at(self.names_spec(), self.entities_spec(), nm, 0)
    }

    pub fn new(level: ScopeLevel) -> (r: Scope)
        ensures
            r.wf(),
            r.level_spec() == level,
            r.names_spec().len() == 0,
            forall|nm: Seq<char>| r.find_spec(nm) is None,
    {
        let r = Scope { level, names: Vec::new(), entities: Vec::new() };
        proof {
            assert forall|nm: Seq<char>| r.find_spec(nm) is None by {
                lemma_find_at_none(r.names_spec(), r.entities_spec(), nm, 0);
            }
        }
        r
    }

    /// The index of the first entry named `nm`, if any.
    fn find_index(&self, nm: &Vec<char>) -> (r: Option<usize>)
        requires
            self.wf(),
        ensures
            match r {
                Some(i) => i < self.names_spec().len() && self.names_spec()[i as int]@ == nm@
                    && forall|k: int| 0 <= k < i ==> self.names_spec()[k]@ != nm@,
                None => forall|k: int|
                    0 <= k < self.names_spec().len() ==> self.names_spec()[k]@ != nm@,
            },
    {
        let mut i: usize = 0;
        while i < self.names.len()
            invariant
                self.wf(),
                i <= self.names_spec().len(),
                forall|k: int| 0 <= k < i ==> self.names_spec()[k]@ != nm@,
            decreases self.names_spec().len() - i,
        {
            if chars_eq(&self.names[i], nm) {
                return Some(i);
            }
            i += 1;
        }
        None
    }

    /// Looks the name up in this scope's entities.
    pub fn find(&self, nm: &Vec<char>) -> (r: Option<Entity>)
        requires
            self.wf(),
        ensures
            r == self.find_spec(nm@),
    {
        let idx = self.find_index(nm);
        match idx {
            Some(i) => {
                proof {
                    lemma_find_at_first(self.names_spec(), self.entities_spec(), nm@, i as int, 0);
                }
                Some(self.entities[i])
            },
            None => {
                proof {
                    lemma_find_at_none(self.names_spec(), self.entities_spec(), nm@, 0);
                }
                None
            },
        }
    }

    /// Binds `nm` to `entity`, replacing any existing binding of that name
    /// and leaving every other name's binding unchanged.
    pub fn declare(&mut self, nm: Vec<char>, entity: Entity)
        requires
            old(self).wf(),
        ensures
            final(self).wf(),
            final(self).level_spec() == old(self).level_spec(),
            final(self).find_spec(nm@) == Some(entity),
            forall|nm2: Seq<char>|
                nm2 != nm@ ==> final(self).find_spec(nm2) == old(self).find_spec(nm2),
    {
        let idx = self.find_index(&nm);
        match idx {
            Some(i) => {
                self.entities[i] = entity;
                proof {
                    lemma_find_at_first(self.names_spec(), self.entities_spec(), nm@, i as int, 0);
                    assert forall|nm2: Seq<char>|
                        nm2 != nm@ implies final(self).find_spec(nm2) == old(self).find_spec(
                        nm2,
                    ) by {
                        lemma_find_at_update(
                            old(self).names_spec(),
                            old(self).entities_spec(),
                            i as int,
                            entity,
                            nm2,
                            0,
                        );
                    }
                }
            },
            None => {
                proof {
                    lemma_find_at_none(self.names_spec(), self.entities_spec(), nm@, 0);
                }
                let ghost onames = self.names_spec();
                let ghost oents = self.entities_spec();
                self.names.push(nm);
                self.entities.push(entity);
                proof {
                    assert forall|nm2: Seq<char>| true implies final(self).find_spec(nm2) == (
                    if find_at(onames, oents, nm2, 0) is Some {
                        find_at(onames, oents, nm2, 0)
                    } else if onames.push(self.names@[onames.len() as int]).last()@ == nm2 {
                        Some(entity)
                    } else {
                        None
                    }) by {
                        lemma_find_at_push(
                            onames,
                            oents,
                            self.names@[onames.len() as int],
                            entity,
                            nm2,
                            0,
                        );
                    }
                }
            },
        }
    }

    /// Marks every ephemeral entity of this scope undefined: its runtime
    /// extent has ended.
    pub fn undefine_all(&mut self)
        requires
            old(self).wf(),
        ensures
            final(self).wf(),
            final(self).level_spec() == old(self).level_spec(),
            final(self).names_spec() == old(self).names_spec(),
            final(self).entities_spec().len() == old(self).entities_spec().len(),
            forall|k: int|
                0 <= k < old(self).entities_spec().len() ==> final(self).entities_spec()[k] == old(self).entities_spec()[k].undefined_if_ephemeral(),
    {
        let mut i: usize = 0;
        while i < self.entities.len()
            invariant
                self.wf(),
                self.level_spec() == old(self).level_spec(),
                self.names_spec() == old(self).names_spec(),
                i <= self.entities_spec().len(),
                self.entities_spec().len() == old(self).entities_spec().len(),
                forall|k: int|
                    0 <= k < i ==> self.entities_spec()[k] == old(self).entities_spec()[k].undefined_if_ephemeral(),
                forall|k: int|
                    i <= k < self.entities_spec().len() ==> self.entities_spec()[k] == old(self).entities_spec()[k],
            decreases self.entities_spec().len() - i,
        {
            let mut e = self.entities[i];
            e.undefine_if_ephemeral();
            self.entities[i] = e;
            i += 1;
        }
    }
}

/// The hint a failed lookup of `ent` contributes, given whether the search
/// has crossed a function boundary.
pub open spec fn candidate_hint(ent: Entity, crossed: bool) -> PossibleMatch {
    if crossed && ent.ephemeral {
        PossibleMatch::Inaccessible(ent.decl_span)
    } else if ent.ephemeral && !ent.defined {
        PossibleMatch::NotYetDefined(ent.decl_span)
    } else {
        PossibleMatch::NoMatch
    }
}

/// The outward scan over a scope stack (innermost last): either the type of
/// the innermost visible entity named `nm`, or no type and the accumulated
/// hint. An entity is visible when it is defined and, once a function
/// boundary has been crossed, not ephemeral.
pub open spec fn scan(scopes: Seq<Scope>, nm: Seq<char>, crossed: bool, hint: PossibleMatch) -> (
    Option<Ty>,
    PossibleMatch,
)
    decreases scopes.len(),
{
    if scopes.len() == 0 {
        (None, hint)
    } else {
        let sc = scopes.last();
        let rest = scopes.drop_last();
        let crossed2 = crossed || sc.level_spec().crosses_spec();
        match sc.find_spec(nm) {
            Some(ent) => {
                if ent.defined && (!crossed || !ent.ephemeral) {
                    (Some(ent.ty), hint)
                } else {
                    scan(rest, nm, crossed2, PossibleMatch::upgraded(hint, candidate_hint(ent, crossed)))
                }
            },
            None => scan(rest, nm, crossed2, hint),
        }
    }
}

/// The resolution engine's state: a pool of scopes that persist across
/// passes, and the stack of the ones currently entered, innermost last.
pub struct Checker {
    scope_pool: Vec<Scope>,
    stack: Vec<usize>,
}

impl Checker {
    pub closed spec fn pool_spec(&self) -> Seq<Scope> {
        self.scope_pool@
    }

    pub closed spec fn stack_spec(&self) -> Seq<usize> {
        self.stack@
    }

    /// Stack entries name pool scopes, no scope is entered twice, and every
    /// pool scope is well formed.
    pub open spec fn wf(&self) -> bool {
        &&& forall|i: int|
            0 <= i < self.stack_spec().len() ==> self.stack_spec()[i] < self.pool_spec().len()
        &&& forall|i: int, j: int|
            0 <= i < j < self.stack_spec().len() ==> self.stack_spec()[i] != self.stack_spec()[j]
        &&& forall|i: int| 0 <= i < self.pool_spec().len() ==> (#[trigger] self.pool_spec()[i]).wf()
    }

    /// The currently entered scopes, outermost first.
    pub open spec fn active(&self) -> Seq<Scope> {
        Seq::new(self.stack_spec().len(), |i: int| self.pool_spec()[self.stack_spec()[i] as int])
    }

    /// A fresh checker standing in the global scope.
    pub fn new() -> (r: Checker)
        ensures
            r.wf(),
            r.active().len() == 1,
            r.active()[0].level_spec() == ScopeLevel::Global,
            r.active()[0].names_spec().len() == 0,
            forall|nm: Seq<char>| r.active()[0].find_spec(nm) is None,
            r.pool_spec().len() == 1,
    {
        let mut pool: Vec<Scope> = Vec::new();
        pool.push(Scope::new(ScopeLevel::Global));
        let mut stack: Vec<usize> = Vec::new();
        stack.push(0);
        Checker { scope_pool: pool, stack }
    }

    pub fn depth(&self) -> (r: usize)
        ensures
            r == self.active().len(),
    {
        self.stack.len()
    }

    pub fn pool_len(&self) -> (r: usize)
        ensures
            r == self.pool_spec().len(),
    {
        self.scope_pool.len()
    }

    /// Whether the scope `h` is currently entered.
    pub fn on_stack(&self, h: usize) -> (r: bool)
        ensures
            r == exists|i: int| 0 <= i < self.stack_spec().len() && self.stack_spec()[i] == h,
    {
        let mut i: usize = 0;
        while i < self.stack.len()
            invariant
                i <= self.stack_spec().len(),
                forall|k: int| 0 <= k < i ==> self.stack_spec()[k] != h,
            decreases self.stack_spec().len() - i,
        {
            if self.stack[i] == h {
                return true;
            }
            i += 1;
        }
        false
    }

    /// Creates a fresh scope in the pool without entering it.
    pub fn alloc_scope(&mut self, level: ScopeLevel) -> (h: usize)
        requires
            old(self).wf(),
        ensures
            final(self).wf(),
            h == old(self).pool_spec().len(),
            final(self).pool_spec().len() == old(self).pool_spec().len() + 1,
            forall|i: int|
                0 <= i < old(self).pool_spec().len() ==> final(self).pool_spec()[i] == old(
                    self,
                ).pool_spec()[i],
            final(self).stack_spec() == old(self).stack_spec(),
            final(self).active() =~= old(self).active(),
            final(self).pool_spec()[h as int].level_spec() == level,
            final(self).pool_spec()[h as int].names_spec().len() == 0,
    {
        let h = self.scope_pool.len();
        self.scope_pool.push(Scope::new(level));
        proof {
            assert(final(self).active() =~= old(self).active());
        }
        h
    }

    /// Creates a fresh scope in the pool and enters it.
    pub fn enter_new_scope(&mut self, level: ScopeLevel) -> (h: usize)
        requires
            old(self).wf(),
        ensures
            final(self).wf(),
            h == old(self).pool_spec().len(),
            final(self).pool_spec().len() == old(self).pool_spec().len() + 1,
            forall|i: int|
                0 <= i < old(self).pool_spec().len() ==> final(self).pool_spec()[i] == old(self).pool_spec()[i],
            final(self).stack_spec() == old(self).stack_spec().push(h),
            final(self).active() =~= old(self).active().push(final(self).pool_spec()[h as int]),
            final(self).active().last().level_spec() == level,
            final(self).active().last().names_spec().len() == 0,
            forall|nm: Seq<char>| final(self).active().last().find_spec(nm) is None,
    {
        let h = self.scope_pool.len();
        self.scope_pool.push(Scope::new(level));
        self.stack.push(h);
        proof {
            assert(final(self).active() =~= old(self).active().push(
                final(self).pool_spec()[h as int],
            ));
        }
        h
    }

    /// Re-enters a scope created earlier, whose entities survived from the
    /// previous pass.
    pub fn enter_scope(&mut self, h: usize)
        requires
            old(self).wf(),
            h < old(self).pool_spec().len(),
            forall|i: int|
                0 <= i < old(self).stack_spec().len() ==> old(self).stack_spec()[i] != h,
        ensures
            final(self).wf(),
            final(self).pool_spec() == old(self).pool_spec(),
            final(self).stack_spec() == old(self).stack_spec().push(h),
            final(self).active() =~= old(self).active().push(old(self).pool_spec()[h as int]),
    {
        self.stack.push(h);
        proof {
            assert(final(self).active() =~= old(self).active().push(
                old(self).pool_spec()[h as int],
            ));
        }
    }

    /// Leaves the innermost scope: its ephemeral entities become undefined,
    /// and it stays in the pool for the next pass.
    pub fn exit_scope(&mut self)
        requires
            old(self).wf(),
            old(self).stack_spec().len() > 0,
        ensures
            final(self).wf(),
            final(self).stack_spec() == old(self).stack_spec().drop_last(),
            final(self).active() =~= old(self).active().drop_last(),
            final(self).pool_spec().len() == old(self).pool_spec().len(),
            ({
                let h = old(self).stack_spec().last() as int;
                &&& forall|i: int|
                    0 <= i < old(self).pool_spec().len() && i != h ==> final(self).pool_spec()[i]
                        == old(self).pool_spec()[i]
                &&& final(self).pool_spec()[h].level_spec() == old(self).pool_spec()[h].level_spec()
                &&& final(self).pool_spec()[h].names_spec() == old(self).pool_spec()[h].names_spec()
                &&& forall|k: int|
                    0 <= k < old(self).pool_spec()[h].entities_spec().len() ==> final(self).pool_spec()[h].entities_spec()[k] == old(self).pool_spec()[h].entities_spec()[k].undefined_if_ephemeral()
            }),
    {
        let h = self.stack[self.stack.len() - 1];
        self.stack.pop();
        let scope = &mut self.scope_pool[h];
        scope.undefine_all();
        proof {
            assert(final(self).active() =~= old(self).active().drop_last());
        }
    }

    /// Declares an entity in the innermost scope.
    pub fn declare(&mut self, nm: Vec<char>, entity: Entity)
        requires
            old(self).wf(),
            old(self).stack_spec().len() > 0,
        ensures
            final(self).wf(),
            final(self).stack_spec() == old(self).stack_spec(),
            final(self).pool_spec().len() == old(self).pool_spec().len(),
            final(self).active().len() == old(self).active().len(),
            forall|i: int|
                0 <= i < old(self).active().len() - 1 ==> final(self).active()[i] == old(self).active()[i],
            final(self).active().last().level_spec() == old(self).active().last().level_spec(),
            final(self).active().last().find_spec(nm@) == Some(entity),
            forall|nm2: Seq<char>|
                nm2 != nm@ ==> final(self).active().last().find_spec(nm2) == old(self).active().last().find_spec(nm2),
    {
        let h = self.stack[self.stack.len() - 1];
        let scope = &mut self.scope_pool[h];
        scope.declare(nm, entity);
        proof {
            assert forall|i: int| 0 <= i < old(self).active().len() - 1 implies final(self).active()[i] == old(self).active()[i] by {
                assert(old(self).stack_spec()[i] != old(self).stack_spec().last());
            }
        }
    }

    /// Resolves a name against the active scopes, innermost first, upgrading
    /// `hint` with every failed near-miss on the way out, exactly as the
    /// outward scan describes.
    pub fn resolve_name(&self, nm: &Vec<char>, hint: &mut PossibleMatch) -> (r: Option<Ty>)
        requires
            self.wf(),
        ensures
            (r, *final(hint)) == scan(self.active(), nm@, false, *old(hint)),
    {
        let ghost all = self.active();
        let ghost nm0 = nm@;
        let mut i: usize = self.stack.len();
        let mut crossed = false;
        proof {
            assert(all.take(all.len() as int) =~= all);
        }
        while i > 0
            invariant
                self.wf(),
                all == self.active(),
                nm0 == nm@,
                i <= all.len(),
                scan(all, nm0, false, *old(hint)) == scan(
                    all.take(i as int),
                    nm0,
                    crossed,
                    *hint,
                ),
            decreases i,
        {
            let ghost pre = *hint;
            let sc = &self.scope_pool[self.stack[i - 1]];
            proof {
                assert(all.take(i as int).last() == all[i - 1]);
                assert(all.take(i as int).drop_last() =~= all.take(i - 1));
                assert(all[i - 1] == self.pool_spec()[self.stack_spec()[i - 1] as int]);
            }
            let found = sc.find(nm);
            match found {
                Some(ent) => {
                    if ent.defined() && (!crossed || !ent.ephemeral()) {
                        return Some(ent.ty());
                    }
                    let cand = if crossed && ent.ephemeral() {
                        PossibleMatch::Inaccessible(ent.span())
                    } else if ent.ephemeral() && !ent.defined() {
                        PossibleMatch::NotYetDefined(ent.span())
                    } else {
                        PossibleMatch::NoMatch
                    };
                    proof {
                        assert(cand == candidate_hint(ent, crossed));
                    }
                    hint.upgrade(cand);
                },
                None => {},
            }
            if sc.level().crosses_function() {
                crossed = true;
            }
            i = i - 1;
        }
        proof {
            assert(all.take(0) =~= Seq::<Scope>::empty());
        }
        None
    }
}

/// No scope binds the name: the scan fails and hands the hint back
/// untouched.
pub proof fn lemma_scan_no_match(scopes: Seq<Scope>, nm: Seq<char>, crossed: bool, hint: PossibleMatch)
    requires
        forall|i: int| 0 <= i < scopes.len() ==> (#[trigger] scopes[i]).find_spec(nm) is None,
    ensures
        scan(scopes, nm, crossed, hint) == (None::<Ty>, hint),
    decreases scopes.len(),
{
    if scopes.len() > 0 {
        assert(scopes.last().find_spec(nm) is None);
        assert(forall|i: int|
            0 <= i < scopes.drop_last().len() ==> (#[trigger] scopes.drop_last()[i]).find_spec(nm)
                is None);
        lemma_scan_no_match(
            scopes.drop_last(),
            nm,
            crossed || scopes.last().level_spec().crosses_spec(),
            hint,
        );
    }
}

/// Shadowing: when the innermost scope binds the name to a defined entity,
/// the scan returns that entity's type — outer bindings of the same name
/// never win.
pub proof fn lemma_shadowing(scopes: Seq<Scope>, nm: Seq<char>, hint: PossibleMatch, e: Entity)
    requires
        scopes.len() > 0,
        scopes.last().find_spec(nm) == Some(e),
        e.defined,
    ensures
        scan(scopes, nm, false, hint) == (Some(e.ty), hint),
{
}

/// Cross-function visibility, hiding direction: an ephemeral entity bound in
/// an enclosing scope is not resolvable once the search has left a
/// function-level scope; the scan fails with the hint upgraded to
/// `Inaccessible` at that entity's declaration span.
pub proof fn lemma_cross_function_inaccessible(
    base: Seq<Scope>,
    outer: Scope,
    inner: Scope,
    nm: Seq<char>,
    e: Entity,
    hint: PossibleMatch,
)
    requires
        inner.find_spec(nm) is None,
        inner.level_spec().crosses_spec(),
        outer.find_spec(nm) == Some(e),
        e.ephemeral,
        e.defined,
        forall|i: int| 0 <= i < base.len() ==> (#[trigger] base[i]).find_spec(nm) is None,
    ensures
        scan(base.push(outer).push(inner), nm, false, hint).0 is None,
        scan(base.push(outer).push(inner), nm, false, hint).1 == PossibleMatch::upgraded(
            hint,
            PossibleMatch::Inaccessible(e.decl_span),
        ),
{
    let stk = base.push(outer).push(inner);
    let h2 = PossibleMatch::upgraded(hint, PossibleMatch::Inaccessible(e.decl_span));
    assert(stk.last() == inner);
    assert(stk.drop_last() =~= base.push(outer));
    assert(scan(stk, nm, false, hint) == scan(base.push(outer), nm, true, hint));
    assert(base.push(outer).last() == outer);
    assert(base.push(outer).drop_last() =~= base);
    assert(candidate_hint(e, true) == PossibleMatch::Inaccessible(e.decl_span));
    assert(scan(base.push(outer), nm, true, hint) == scan(
        base,
        nm,
        true || outer.level_spec().crosses_spec(),
        h2,
    ));
    lemma_scan_no_match(base, nm, true || outer.level_spec().crosses_spec(), h2);
}

/// Cross-function visibility, seeing direction: the same entity is
/// resolvable from a nested block scope of the same function, since a block
/// crosses no function boundary.
pub proof fn lemma_same_function_visible(
    base: Seq<Scope>,
    outer: Scope,
    inner: Scope,
    nm: Seq<char>,
    e: Entity,
    hint: PossibleMatch,
)
    requires
        inner.find_spec(nm) is None,
        !inner.level_spec().crosses_spec(),
        outer.find_spec(nm) == Some(e),
        e.defined,
    ensures
        scan(base.push(outer).push(inner), nm, false, hint) == (Some(e.ty), hint),
{
    let stk = base.push(outer).push(inner);
    assert(stk.last() == inner);
    assert(stk.drop_last() =~= base.push(outer));
    assert(scan(stk, nm, false, hint) == scan(base.push(outer), nm, false, hint));
    assert(base.push(outer).last() == outer);
    assert(scan(base.push(outer), nm, false, hint) == (Some(e.ty), hint));
}

/// Forward reference: a use that only finds an ephemeral entity whose
/// declaration point has not been reached fails, with the hint upgraded to
/// `NotYetDefined` at that entity's declaration span.
pub proof fn lemma_forward_reference(
    base: Seq<Scope>,
    sc: Scope,
    nm: Seq<char>,
    e: Entity,
    hint: PossibleMatch,
)
    requires
        sc.find_spec(nm) == Some(e),
        e.ephemeral,
        !e.defined,
        forall|i: int| 0 <= i < base.len() ==> (#[trigger] base[i]).find_spec(nm) is None,
    ensures
        scan(base.push(sc), nm, false, hint).0 is None,
        scan(base.push(sc), nm, false, hint).1 == PossibleMatch::upgraded(
            hint,
            PossibleMatch::NotYetDefined(e.decl_span),
        ),
{
    let stk = base.push(sc);
    let h2 = PossibleMatch::upgraded(hint, PossibleMatch::NotYetDefined(e.decl_span));
    assert(stk.last() == sc);
    assert(stk.drop_last() =~= base);
    assert(candidate_hint(e, false) == PossibleMatch::NotYetDefined(e.decl_span));
    assert(scan(stk, nm, false, hint) == scan(base, nm, sc.level_spec().crosses_spec(), h2));
    lemma_scan_no_match(base, nm, sc.level_spec().crosses_spec(), h2);
}

/// Hint monotonicity, first half: the scan never hands back a hint ranked
/// below the one it started from.
pub proof fn lemma_hint_monotone(scopes: Seq<Scope>, nm: Seq<char>, crossed: bool, hint: PossibleMatch)
    ensures
        scan(scopes, nm, crossed, hint).1.prec() >= hint.prec(),
    decreases scopes.len(),
{
    if scopes.len() > 0 {
        let sc = scopes.last();
        let rest = scopes.drop_last();
        let crossed2 = crossed || sc.level_spec().crosses_spec();
        match sc.find_spec(nm) {
            Some(ent) => {
                if !(ent.defined && (!crossed || !ent.ephemeral)) {
                    lemma_hint_monotone(
                        rest,
                        nm,
                        crossed2,
                        PossibleMatch::upgraded(hint, candidate_hint(ent, crossed)),
                    );
                }
            },
            None => {
                lemma_hint_monotone(rest, nm, crossed2, hint);
            },
        }
    }
}

/// Whether the search has crossed a function boundary by the time it
/// examines scope `i` (scopes are outermost-first; the scan runs from the
/// last index down).
pub open spec fn crossed_at(scopes: Seq<Scope>, crossed0: bool, i: int) -> bool {
    crossed0 || exists|j: int|
        i < j < scopes.len() && (#[trigger] scopes[j].level_spec()).crosses_spec()
}

/// The hint the scan computes while examining scope `i`, when resolution
/// does not succeed there.
pub open spec fn candidate_at(scopes: Seq<Scope>, nm: Seq<char>, crossed0: bool, i: int) -> PossibleMatch {
    match scopes[i].find_spec(nm) {
        Some(e) => {
            if e.defined && (!crossed_at(scopes, crossed0, i) || !e.ephemeral) {
                PossibleMatch::NoMatch
            } else {
                candidate_hint(e, crossed_at(scopes, crossed0, i))
            }
        },
        None => PossibleMatch::NoMatch,
    }
}

/// Hint monotonicity, second half: across a full outward scan that fails,
/// the final hint is never ranked below any hint computed at an earlier
/// (more inner) scope of the same scan.
pub proof fn lemma_hint_dominates(
    scopes: Seq<Scope>,
    nm: Seq<char>,
    crossed0: bool,
    hint: PossibleMatch,
    i: int,
)
    requires
        0 <= i < scopes.len(),
        scan(scopes, nm, crossed0, hint).0 is None,
    ensures
        scan(scopes, nm, crossed0, hint).1.prec() >= candidate_at(scopes, nm, crossed0, i).prec(),
    decreases scopes.len(),
{
    let sc = scopes.last();
    let rest = scopes.drop_last();
    let crossed2 = crossed0 || sc.level_spec().crosses_spec();
    if i == scopes.len() - 1 {
        assert(!crossed0 ==> !crossed_at(scopes, crossed0, i));
        assert(crossed_at(scopes, crossed0, i) == crossed0);
        match sc.find_spec(nm) {
            Some(ent) => {
                if ent.defined && (!crossed0 || !ent.ephemeral) {
                    assert(scan(scopes, nm, crossed0, hint).0 is Some);
                } else {
                    let h2 = PossibleMatch::upgraded(hint, candidate_hint(ent, crossed0));
                    lemma_hint_monotone(rest, nm, crossed2, h2);
                    assert(h2.prec() >= candidate_at(scopes, nm, crossed0, i).prec());
                }
            },
            None => {
                lemma_hint_monotone(rest, nm, crossed2, hint);
            },
        }
    } else {
        assert(rest[i] == scopes[i]);
        assert(crossed_at(scopes, crossed0, i) == crossed_at(rest, crossed2, i)) by {
            if crossed_at(scopes, crossed0, i) {
                if !crossed0 {
                    let j = choose|j: int|
                        i < j < scopes.len() && (#[trigger] scopes[j].level_spec()).crosses_spec();
                    if j == scopes.len() - 1 {
                        assert(crossed2);
                    } else {
                        assert(rest[j] == scopes[j]);
                        assert(i < j < rest.len() && rest[j].level_spec().crosses_spec());
                    }
                }
            }
            if crossed_at(rest, crossed2, i) {
                if !crossed0 {
                    if crossed2 {
                        assert(scopes[scopes.len() - 1].level_spec().crosses_spec());
                        assert(i < scopes.len() - 1 < scopes.len());
                    } else {
                        let j = choose|j: int|
                            i < j < rest.len() && (#[trigger] rest[j].level_spec()).crosses_spec();
                        assert(scopes[j] == rest[j]);
                        assert(i < j < scopes.len() && scopes[j].level_spec().crosses_spec());
                    }
                }
            }
        }
        assert(candidate_at(scopes, nm, crossed0, i) == candidate_at(rest, nm, crossed2, i));
        match sc.find_spec(nm) {
            Some(ent) => {
                if ent.defined && (!crossed0 || !ent.ephemeral) {
                    assert(scan(scopes, nm, crossed0, hint).0 is Some);
                } else {
                    lemma_hint_dominates(
                        rest,
                        nm,
                        crossed2,
                        PossibleMatch::upgraded(hint, candidate_hint(ent, crossed0)),
                        i,
                    );
                }
            },
            None => {
                lemma_hint_dominates(rest, nm, crossed2, hint, i);
            },
        }
    }
}


} // verus!
