use frontend::source::{Src, Span};
use frontend::tokenizer::{
    tokenize, skip_c_like_comments, BasicToken, SrcCursor, Token, TokenSource, TokenStream,
    TokenTree, Tokenizer,
};

fn src_of(text: &str) -> Src {
    Src::new(1, text.chars().collect())
}

fn word_texts(tokens: &[BasicToken]) -> Vec<String> {
    tokens
        .iter()
        .map(|t| match t {
            BasicToken::Word { text, .. } => text.clone(),
            BasicToken::Bad { .. } => "<bad>".to_string(),
            BasicToken::End { .. } => "<eof>".to_string(),
        })
        .collect()
}

#[test]
fn tokenize_words_skipping_comments() {
    let src = src_of("a b // comment\n d");
    let tokens: Vec<BasicToken> = tokenize(&src);
    assert_eq!(word_texts(&tokens), vec!["a", "b", "d"]);
    for t in &tokens {
        assert!(!t.is_eof());
        assert!(!t.is_error());
    }
}

#[test]
fn tokenize_represents_bad_input_as_error_token() {
    let src = src_of("a \u{1} b");
    let tokens: Vec<BasicToken> = tokenize(&src);
    assert_eq!(tokens.len(), 3);
    assert!(!tokens[0].is_error());
    assert!(tokens[1].is_error());
    assert!(tokens[1].get_error().is_some());
    assert!(!tokens[2].is_error());
}

#[test]
fn skip_comments_moves_to_first_significant_char() {
    let src = src_of("// one\n// two\n  x");
    let mut cursor = SrcCursor::new(&src);
    skip_c_like_comments(&mut cursor);
    assert_eq!(cursor.peek(), Some('x'));
    assert_eq!(cursor.peek_n(1), None);
}

#[test]
fn cursor_peek_and_next() {
    let src = src_of("ab");
    let mut cursor = SrcCursor::new(&src);
    assert_eq!(cursor.peek(), Some('a'));
    assert_eq!(cursor.peek_n(1), Some('b'));
    assert_eq!(cursor.next(), Some('a'));
    assert_eq!(cursor.next(), Some('b'));
    assert_eq!(cursor.next(), None);
}

#[test]
fn tokenizer_yields_eof_forever_at_end() {
    let src = src_of("x");
    let mut tz: Tokenizer<'_, BasicToken> = Tokenizer::new(&src);
    let t1 = tz.next();
    assert!(!t1.is_eof());
    let t2 = tz.next();
    assert!(t2.is_eof());
    let t3 = tz.next();
    assert!(t3.is_eof());
    assert_eq!(t3.get_eof_name(), None);
}

#[test]
fn token_tree_replays_items_then_eof() {
    let src = src_of("a b");
    let items: Vec<BasicToken> = tokenize(&src);
    let mut tree = TokenTree::new(1, items, Span { src_id: 1, start: 3, end: 3 });
    assert!(!tree.next().is_eof());
    assert!(!tree.next().is_eof());
    assert!(tree.next().is_eof());
    assert!(tree.next().is_eof());
}

#[test]
fn new_eof_is_eof() {
    let t = BasicToken::new_eof();
    assert!(t.is_eof());
    assert!(!t.is_error());
}

#[test]
fn dup_is_an_exact_copy() {
    let src = src_of("w");
    let tokens: Vec<BasicToken> = tokenize(&src);
    let d = tokens[0].dup();
    assert_eq!(d.is_eof(), tokens[0].is_eof());
    assert_eq!(d.is_error(), tokens[0].is_error());
    match (&tokens[0], &d) {
        (BasicToken::Word { text: a, span: sa }, BasicToken::Word { text: b, span: sb }) => {
            assert_eq!(a, b);
            assert_eq!(sa, sb);
        }
        _ => panic!("expected matching word tokens"),
    }
}

#[test]
fn stream_tracks_closing_brace() {
    let src = src_of("{ a }");
    let tz: Tokenizer<'_, BasicToken> = Tokenizer::new(&src);
    let mut stream: TokenStream<'_, BasicToken, 2> = TokenStream::new(TokenSource::Live(tz));
    assert!(!stream.last_was_braced());
    let t = stream.next();
    assert!(!t.is_eof());
    assert!(!stream.last_was_braced());
    stream.next();
    stream.next();
    assert!(stream.last_was_braced());
}

#[test]
fn stream_peek_does_not_consume() {
    let src = src_of("a b");
    let tz: Tokenizer<'_, BasicToken> = Tokenizer::new(&src);
    let mut stream: TokenStream<'_, BasicToken, 2> = TokenStream::new(TokenSource::Live(tz));
    let is_word = matches!(stream.peek_next(), BasicToken::Word { .. });
    assert!(is_word);
    let t = stream.next();
    match t {
        BasicToken::Word { text, .. } => assert_eq!(text, "a"),
        _ => panic!("expected a word"),
    }
}
