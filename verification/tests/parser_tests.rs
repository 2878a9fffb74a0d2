use frontend::source::{Src, Level};
use frontend::parser::Parser;
use frontend::text::is_op_char;

fn src_of(text: &str) -> Src {
    Src::new(1, text.chars().collect())
}

#[test]
fn identifier_word_is_maximal() {
    let src = src_of("abc12 x");
    let mut p = Parser::new(&src);
    let w = p.next_word("identifier").unwrap();
    assert_eq!(w, "abc12");
    assert_eq!(p.pos(), 5);
}

#[test]
fn dot_run_is_one_word() {
    let src = src_of("....");
    let mut p = Parser::new(&src);
    let w = p.next_word("separator").unwrap();
    assert_eq!(w, "....");
    assert_eq!(p.pos(), 4);
}

#[test]
fn mixed_punctuation_splits() {
    let src = src_of("{a.b}");
    let mut p = Parser::new(&src);
    assert_eq!(p.next_word("word").unwrap(), "{");
    assert_eq!(p.next_word("word").unwrap(), "a");
    assert_eq!(p.next_word("word").unwrap(), ".");
    assert_eq!(p.next_word("word").unwrap(), "b");
    assert_eq!(p.next_word("word").unwrap(), "}");
    assert!(p.is_eof());
}

#[test]
fn operator_run_is_one_word() {
    let src = src_of("a+=b");
    let mut p = Parser::new(&src);
    assert_eq!(p.next_word("word").unwrap(), "a");
    assert_eq!(p.next_word("word").unwrap(), "+=");
    assert_eq!(p.next_word("word").unwrap(), "b");
}

#[test]
fn expect_word_backtracks_on_mismatch() {
    let src = src_of("bar");
    let mut p = Parser::new(&src);
    let r = p.expect_word("foo");
    assert!(r.is_err());
    assert_eq!(p.pos(), 0);
    let r2 = p.expect_word("bar");
    assert_eq!(r2.unwrap(), "bar");
}

#[test]
fn expect_ch_leaves_position_on_failure() {
    let src = src_of("y");
    let mut p = Parser::new(&src);
    let e = p.expect_ch('x').unwrap_err();
    assert_eq!(p.pos(), 0);
    assert_eq!(e.info, "Expected 'x', got 'y'");
    assert!(matches!(e.level, Level::Error));
    assert_eq!(p.expect_ch('y').unwrap(), 'y');
    assert_eq!(p.pos(), 1);
    let e2 = p.expect_ch('z').unwrap_err();
    assert_eq!(e2.info, "Expected 'z', got 'EOF'");
}

#[test]
fn expect_not_ch_and_range() {
    let src = src_of("ab");
    let mut p = Parser::new(&src);
    assert_eq!(p.expect_not_ch('b').unwrap(), 'a');
    assert!(p.expect_not_ch('b').is_err());
    assert_eq!(p.pos(), 1);
    assert_eq!(p.expect_ch_range('a', 'z').unwrap(), 'b');
    assert!(p.expect_ch_range('a', 'z').is_err());
}

#[test]
fn expect_ch_with_predicate() {
    let src = src_of("7x");
    let mut p = Parser::new(&src);
    let digit = |c: char| c.is_ascii_digit();
    assert_eq!(p.expect_ch_with(digit, "digit").unwrap(), '7');
    let e = p.expect_ch_with(digit, "digit").unwrap_err();
    assert_eq!(e.info, "Expected 'digit', got 'x'");
    assert_eq!(p.pos(), 1);
}

#[test]
fn skip_ws_skips_comments_and_whitespace() {
    let src = src_of("  // note\n\t x");
    let mut p = Parser::new(&src);
    let pos = p.skip_ws();
    assert_eq!(src.get(pos), Some('x'));
    assert_eq!(p.peek(), Some('x'));
}

#[test]
fn eof_with_trailing_comment() {
    let src = src_of("a // trailing");
    let mut p = Parser::new(&src);
    p.next_word("word").unwrap();
    assert!(p.is_eof());
    assert!(p.expect_eof().is_ok());
}

#[test]
fn expect_eof_fails_mid_input() {
    let src = src_of("a b");
    let mut p = Parser::new(&src);
    p.next_word("word").unwrap();
    let e = p.expect_eof().unwrap_err();
    assert_eq!(e.info, "Expected EOF");
}

#[test]
fn next_word_rejects_garbage_and_restores() {
    let src = src_of("  \u{1}rest");
    let mut p = Parser::new(&src);
    let r = p.next_word("word");
    assert!(r.is_err());
    assert_eq!(p.pos(), 2);
}

#[test]
fn op_char_set() {
    for c in "=+-/%&|^*~@!?<>#".chars() {
        assert!(is_op_char(c));
    }
    assert!(!is_op_char('a'));
    assert!(!is_op_char('.'));
    assert!(!is_op_char('('));
}

#[test]
fn get_meta_trims_trailing_whitespace() {
    let src = src_of("ab  ");
    let mut p = Parser::new(&src);
    p.next_word("word").unwrap();
    p.skip_ws();
    let meta = p.get_meta(0);
    assert_eq!(meta.span.start, 0);
    assert_eq!(meta.span.end, 2);
    assert_eq!(meta.span.src_id, 1);
}

#[test]
fn next_word_at_eof_reports_and_restores() {
    let src = src_of("ab  ");
    let mut p = Parser::new(&src);
    p.next_word("word").unwrap();
    let e = p.next_word("foo").unwrap_err();
    assert_eq!(e.info, "Expected 'foo', got EOF");
    assert_eq!(p.pos(), 2);
}
