//! Named symbols in scope, and the result type of resolution.

use vstd::prelude::*;
use crate::source::Span;

verus! {

/// The opaque, comparable result of a successful resolution.
#[derive(Clone, Copy, PartialEq, Eq, Structural, Debug)]
pub enum Ty {
    /// Resolution produced nothing usable.
    Invalid,
    Void,
    Bool,
    Int,
    Float,
    Str,
}

/// A named symbol in scope: its type, where it was declared, whether it only
/// exists after its declaration point (a local), and whether it is currently
/// defined.
#[derive(Clone, Copy, PartialEq, Eq, Structural, Debug)]
pub struct Entity {
    pub ty: Ty,
    pub decl_span: Span,
    pub ephemeral: bool,
    pub defined: bool,
}

impl Entity {
    pub open spec fn ty_spec(&self) -> Ty {
        self.ty
    }

    pub open spec fn span_spec(&self) -> Span {
        self.decl_span
    }

    pub open spec fn ephemeral_spec(&self) -> bool {
        self.ephemeral
    }

    pub open spec fn defined_spec(&self) -> bool {
        self.defined
    }

    /// A freshly declared entity counts as defined.
    pub fn new(ty: Ty, decl_span: Span, ephemeral: bool) -> (r: Entity)
        ensures
            r.ty_spec() == ty,
            r.span_spec() == decl_span,
            r.ephemeral_spec() == ephemeral,
            r.defined_spec(),
    {
        Entity { ty, decl_span, ephemeral, defined: true }
    }

    pub fn span(&self) -> (r: Span)
        ensures
            r == self.span_spec(),
    {
        self.decl_span
    }

    pub fn ty(&self) -> (r: Ty)
        ensures
            r == self.ty_spec(),
    {
        self.ty
    }

    pub fn ephemeral(&self) -> (r: bool)
        ensures
            r == self.ephemeral_spec(),
    {
        self.ephemeral
    }

    pub fn defined(&self) -> (r: bool)
        ensures
            r == self.defined_spec(),
    {
        self.defined
    }

    /// What an entity becomes when its scope's runtime extent ends.
    pub open spec fn undefined_if_ephemeral(self) -> Entity {
        if self.ephemeral {
            Entity { defined: false, ..self }
        } else {
            self
        }
    }

    /// An ephemeral entity becomes undefined again when its defining scope's
    /// runtime extent ends, so a later pass sees it as not yet defined.
    pub fn undefine_if_ephemeral(&mut self)
        ensures
            *final(self) == old(self).undefined_if_ephemeral(),
    {
        if self.ephemeral {
            self.defined = false;
        }
    }
}

} // verus!
