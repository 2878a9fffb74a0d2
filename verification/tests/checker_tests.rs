use frontend::checker::{Checker, ScopeLevel};
use frontend::entity::{Entity, Ty};
use frontend::ast::PossibleMatch;
use frontend::source::Span;

fn name(s: &str) -> Vec<char> {
    s.chars().collect()
}

fn span_at(start: usize) -> Span {
    Span { src_id: 1, start, end: start + 1 }
}

#[test]
fn shadowing_innermost_wins() {
    let mut ck = Checker::new();
    ck.declare(name("x"), Entity::new(Ty::Int, span_at(0), false));
    ck.enter_new_scope(ScopeLevel::Block);
    ck.declare(name("x"), Entity::new(Ty::Bool, span_at(5), true));
    let mut hint = PossibleMatch::NoMatch;
    let r = ck.resolve_name(&name("x"), &mut hint);
    assert_eq!(r, Some(Ty::Bool));
}

#[test]
fn outer_binding_still_visible_without_shadow() {
    let mut ck = Checker::new();
    ck.declare(name("x"), Entity::new(Ty::Int, span_at(0), false));
    ck.enter_new_scope(ScopeLevel::Block);
    let mut hint = PossibleMatch::NoMatch;
    let r = ck.resolve_name(&name("x"), &mut hint);
    assert_eq!(r, Some(Ty::Int));
}

#[test]
fn ephemeral_hidden_across_function_boundary() {
    let mut ck = Checker::new();
    ck.enter_new_scope(ScopeLevel::Function);
    ck.declare(name("local"), Entity::new(Ty::Int, span_at(3), true));
    ck.enter_new_scope(ScopeLevel::Function);
    let mut hint = PossibleMatch::NoMatch;
    let r = ck.resolve_name(&name("local"), &mut hint);
    assert_eq!(r, None);
    assert!(matches!(hint, PossibleMatch::Inaccessible(sp) if sp == span_at(3)));
}

#[test]
fn ephemeral_visible_from_nested_block() {
    let mut ck = Checker::new();
    ck.enter_new_scope(ScopeLevel::Function);
    ck.declare(name("local"), Entity::new(Ty::Int, span_at(3), true));
    ck.enter_new_scope(ScopeLevel::Block);
    let mut hint = PossibleMatch::NoMatch;
    let r = ck.resolve_name(&name("local"), &mut hint);
    assert_eq!(r, Some(Ty::Int));
    assert!(matches!(hint, PossibleMatch::NoMatch));
}

#[test]
fn hoisted_entity_visible_across_function_boundary() {
    let mut ck = Checker::new();
    ck.declare(name("top"), Entity::new(Ty::Str, span_at(0), false));
    ck.enter_new_scope(ScopeLevel::Function);
    let mut hint = PossibleMatch::NoMatch;
    let r = ck.resolve_name(&name("top"), &mut hint);
    assert_eq!(r, Some(Ty::Str));
}

#[test]
fn forward_reference_hints_not_yet_defined() {
    let mut ck = Checker::new();
    let h = ck.enter_new_scope(ScopeLevel::Block);
    ck.declare(name("y"), Entity::new(Ty::Int, span_at(7), true));
    ck.exit_scope();
    ck.enter_scope(h);
    let mut hint = PossibleMatch::NoMatch;
    let r = ck.resolve_name(&name("y"), &mut hint);
    assert_eq!(r, None);
    assert!(matches!(hint, PossibleMatch::NotYetDefined(sp) if sp == span_at(7)));
}

#[test]
fn unknown_name_keeps_hint() {
    let ck = Checker::new();
    let mut hint = PossibleMatch::NoMatch;
    let r = ck.resolve_name(&name("ghost_name"), &mut hint);
    assert_eq!(r, None);
    assert!(matches!(hint, PossibleMatch::NoMatch));
}

#[test]
fn hint_upgrade_is_monotone() {
    let mut h = PossibleMatch::NoMatch;
    assert_eq!(h.precedence(), 0);
    h.upgrade(PossibleMatch::NearlyTheSameName(name("xs"), span_at(1)));
    assert_eq!(h.precedence(), 1);
    h.upgrade(PossibleMatch::NotYetDefined(span_at(2)));
    assert_eq!(h.precedence(), 3);
    h.upgrade(PossibleMatch::Inaccessible(span_at(3)));
    assert_eq!(h.precedence(), 3);
    assert!(matches!(h, PossibleMatch::NotYetDefined(_)));
}

#[test]
fn hint_never_weakens_over_full_scan() {
    let mut ck = Checker::new();
    ck.enter_new_scope(ScopeLevel::Function);
    ck.declare(name("v"), Entity::new(Ty::Int, span_at(1), true));
    ck.enter_new_scope(ScopeLevel::Function);
    let h = ck.enter_new_scope(ScopeLevel::Block);
    ck.declare(name("v"), Entity::new(Ty::Int, span_at(9), true));
    ck.exit_scope();
    ck.enter_scope(h);
    let mut hint = PossibleMatch::NoMatch;
    let r = ck.resolve_name(&name("v"), &mut hint);
    assert_eq!(r, None);
    assert_eq!(hint.precedence(), 3);
    assert!(matches!(hint, PossibleMatch::NotYetDefined(sp) if sp == span_at(9)));
}

#[test]
fn entity_undefine_only_ephemeral() {
    let mut e = Entity::new(Ty::Int, span_at(0), true);
    assert!(e.defined());
    assert!(e.ephemeral());
    e.undefine_if_ephemeral();
    assert!(!e.defined());

    let mut h = Entity::new(Ty::Int, span_at(0), false);
    h.undefine_if_ephemeral();
    assert!(h.defined());
    assert_eq!(h.ty(), Ty::Int);
    assert_eq!(h.span(), span_at(0));
}
