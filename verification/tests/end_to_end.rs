use frontend::source::{Src, SrcPool, Logger, Level};
use frontend::parser::Parser;
use frontend::pool::{NodePool, ASTPool};
use frontend::entity::Ty;
use frontend::ast::{parse_expr, parse_expr_list, check_coherency, AstNode, Expr, ExprList};

fn src_of(text: &str) -> Src {
    Src::new(1, text.chars().collect())
}

fn parse_root(text: &str, pool: &mut NodePool) -> usize {
    let src = src_of(text);
    let mut p = Parser::new(&src);
    let e = parse_expr(&mut p, pool).unwrap();
    assert!(p.expect_eof().is_ok());
    pool.add(AstNode::Expr(e))
}

#[test]
fn block_scoped_shadowing_resolves_inner() {
    let mut pool = NodePool::new();
    let root = parse_root("{ let x = 1; { let x = 2; x } }", &mut pool);
    let mut logger = Logger::new();
    let ty = check_coherency(&mut pool, root, &mut logger);
    assert_eq!(ty, Ty::Int);
    assert_eq!(logger.messages.len(), 0);
}

#[test]
fn block_scoped_shadowing_distinguishes_types() {
    let mut pool = NodePool::new();
    let root = parse_root("{ let x = 1; { let x = \"two\"; x } }", &mut pool);
    let mut logger = Logger::new();
    let ty = check_coherency(&mut pool, root, &mut logger);
    assert_eq!(ty, Ty::Str);
    assert_eq!(logger.messages.len(), 0);
}

#[test]
fn use_before_declaration_reports_defined_later() {
    let mut pool = NodePool::new();
    let root = parse_root("{ y; let y = 1 }", &mut pool);
    let mut logger = Logger::new();
    let ty = check_coherency(&mut pool, root, &mut logger);
    assert_eq!(ty, Ty::Invalid);
    assert_eq!(logger.messages.len(), 1);
    let m = &logger.messages[0];
    assert!(matches!(m.level, Level::Error));
    assert_eq!(m.info, "Unknown item y");
    assert_eq!(m.notes.len(), 1);
    assert_eq!(m.notes[0].info, "Item y is defined later");
}

#[test]
fn unknown_name_reports_bare_error() {
    let mut pool = NodePool::new();
    let root = parse_root("{ nope }", &mut pool);
    let mut logger = Logger::new();
    let ty = check_coherency(&mut pool, root, &mut logger);
    assert_eq!(ty, Ty::Invalid);
    assert_eq!(logger.messages.len(), 1);
    assert_eq!(logger.messages[0].info, "Unknown item nope");
    assert_eq!(logger.messages[0].notes.len(), 0);
}

#[test]
fn this_outside_scope_reports_distinct_error() {
    let mut pool = NodePool::new();
    let root = parse_root("this", &mut pool);
    let mut logger = Logger::new();
    let ty = check_coherency(&mut pool, root, &mut logger);
    assert_eq!(ty, Ty::Invalid);
    assert_eq!(logger.messages.len(), 1);
    assert_eq!(logger.messages[0].info, "'this' is not valid in this scope");
    assert_eq!(logger.messages[0].notes.len(), 0);
}

#[test]
fn literals_and_flow_resolve() {
    let mut pool = NodePool::new();
    let root = parse_root("{ let a = true; if a { return 1 } else { void }; a }", &mut pool);
    let mut logger = Logger::new();
    let ty = check_coherency(&mut pool, root, &mut logger);
    assert_eq!(ty, Ty::Bool);
    assert_eq!(logger.messages.len(), 0);
}

#[test]
fn using_item_parses_and_resolves() {
    let mut pool = NodePool::new();
    let root = parse_root("{ using a::b; 1 }", &mut pool);
    let mut logger = Logger::new();
    let ty = check_coherency(&mut pool, root, &mut logger);
    assert_eq!(ty, Ty::Int);
}

#[test]
fn failed_source_is_excluded_from_collection() {
    let mut sp = SrcPool::new();
    sp.add(Src::new(1, "1".chars().collect()));
    sp.add(Src::new(2, "(((".chars().collect()));
    sp.add(Src::new(3, "2".chars().collect()));
    let mut list = NodePool::new();
    let mut logger = Logger::new();
    let asts: ASTPool<Expr> = ASTPool::parse_src_pool(&mut list, &sp, &mut logger);
    assert_eq!(asts.len(), 2);
    assert!(logger.messages.len() >= 1);
}

#[test]
fn empty_source_parses_as_empty_list() {
    let mut sp = SrcPool::new();
    sp.add(Src::new(1, "  // nothing\n".chars().collect()));
    let mut list = NodePool::new();
    let mut logger = Logger::new();
    let asts: ASTPool<ExprList> = ASTPool::parse_src_pool(&mut list, &sp, &mut logger);
    assert_eq!(asts.len(), 1);
    assert_eq!(logger.messages.len(), 0);
}

#[test]
fn rule_failure_restores_position() {
    let src = src_of("42");
    let mut p = Parser::new(&src);
    let mut pool = NodePool::new();
    let r = frontend::ast::parse_if(&mut p, &mut pool);
    assert!(r.is_err());
    assert_eq!(p.pos(), 0);
    let e = parse_expr(&mut p, &mut pool).unwrap();
    assert!(matches!(e, Expr::Atom(_, _)));
}

#[test]
fn parse_expr_list_stops_at_closing_brace() {
    let src = src_of("1; 2 }");
    let mut p = Parser::new(&src);
    let mut pool = NodePool::new();
    let el = parse_expr_list(&mut p, &mut pool).unwrap();
    assert_eq!(el.exprs.len(), 2);
    assert_eq!(p.peek(), Some('}'));
}

#[test]
fn global_forward_reference_resolves_in_later_pass() {
    let src = src_of("y; let y = 1");
    let mut p = Parser::new(&src);
    let mut pool = NodePool::new();
    let el = parse_expr_list(&mut p, &mut pool).unwrap();
    assert!(p.expect_eof().is_ok());
    let root = pool.add(AstNode::List(el));
    let mut logger = Logger::new();
    let ty = check_coherency(&mut pool, root, &mut logger);
    assert_eq!(ty, Ty::Void);
    assert_eq!(logger.messages.len(), 0);
}

#[test]
fn logger_counts_errors() {
    let mut pool = NodePool::new();
    let root = parse_root("{ a; b }", &mut pool);
    let mut logger = Logger::new();
    let ty = check_coherency(&mut pool, root, &mut logger);
    assert_eq!(ty, Ty::Invalid);
    assert_eq!(logger.messages.len(), 2);
    assert_eq!(logger.error_count(), 2);
}
