use template_ast::lexer::Lexer;
use template_ast::token::{Token, TokenKind};

fn tokenize(text: &str) -> Vec<Token> {
    let mut lexer = Lexer::new(text.to_string());
    lexer.tokenize()
}

#[test]
fn plain_text_is_one_literal_token() {
    let tokens = tokenize("hello, world!");
    assert_eq!(tokens.len(), 1);
    assert_eq!(tokens[0].kind, TokenKind::Unvariable);
    assert_eq!(tokens[0].raw, "hello, world!");
}

#[test]
fn block_number_block_tokens() {
    let tokens = tokenize("<5>");
    assert_eq!(tokens.len(), 3);
    assert_eq!(tokens[0].kind, TokenKind::BlockStart);
    assert_eq!(tokens[0].raw, "<");
    assert_eq!(tokens[1].kind, TokenKind::Number);
    assert_eq!(tokens[1].raw, "5");
    assert_eq!(tokens[2].kind, TokenKind::BlockEnd);
    assert_eq!(tokens[2].raw, ">");
}

#[test]
fn identifier_token_with_letters() {
    let tokens = tokenize("&foo");
    assert_eq!(tokens.len(), 1);
    assert_eq!(tokens[0].kind, TokenKind::Identifier);
    assert_eq!(tokens[0].raw, "&foo");
}

#[test]
fn empty_input_gives_no_tokens() {
    let tokens = tokenize("");
    assert_eq!(tokens.len(), 0);
}

#[test]
fn trailing_literal_is_flushed() {
    let tokens = tokenize("ab<cd");
    assert_eq!(tokens.len(), 3);
    assert_eq!(tokens[0].kind, TokenKind::Unvariable);
    assert_eq!(tokens[0].raw, "ab");
    assert_eq!(tokens[1].kind, TokenKind::BlockStart);
    assert_eq!(tokens[2].kind, TokenKind::Unvariable);
    assert_eq!(tokens[2].raw, "cd");
}

#[test]
fn consecutive_specials_each_token() {
    let tokens = tokenize("<<");
    assert_eq!(tokens.len(), 2);
    assert_eq!(tokens[0].kind, TokenKind::BlockStart);
    assert_eq!(tokens[1].kind, TokenKind::BlockStart);

    let tokens = tokenize("><");
    assert_eq!(tokens.len(), 2);
    assert_eq!(tokens[0].kind, TokenKind::BlockEnd);
    assert_eq!(tokens[1].kind, TokenKind::BlockStart);
}

#[test]
fn digit_flushes_pending_literal() {
    let tokens = tokenize("x1");
    assert_eq!(tokens.len(), 2);
    assert_eq!(tokens[0].kind, TokenKind::Unvariable);
    assert_eq!(tokens[0].raw, "x");
    assert_eq!(tokens[1].kind, TokenKind::Number);
    assert_eq!(tokens[1].raw, "1");
}

#[test]
fn number_run_is_greedy() {
    let tokens = tokenize("12a34");
    assert_eq!(tokens.len(), 3);
    assert_eq!(tokens[0].kind, TokenKind::Number);
    assert_eq!(tokens[0].raw, "12");
    assert_eq!(tokens[1].kind, TokenKind::Unvariable);
    assert_eq!(tokens[1].raw, "a");
    assert_eq!(tokens[2].kind, TokenKind::Number);
    assert_eq!(tokens[2].raw, "34");
}

#[test]
fn lone_ampersand_is_minimal_identifier() {
    let tokens = tokenize("&");
    assert_eq!(tokens.len(), 1);
    assert_eq!(tokens[0].kind, TokenKind::Identifier);
    assert_eq!(tokens[0].raw, "&");
}

#[test]
fn identifier_stops_at_non_continuation() {
    let tokens = tokenize("&ab c");
    assert_eq!(tokens.len(), 2);
    assert_eq!(tokens[0].kind, TokenKind::Identifier);
    assert_eq!(tokens[0].raw, "&ab");
    assert_eq!(tokens[1].kind, TokenKind::Unvariable);
    assert_eq!(tokens[1].raw, " c");
}

#[test]
fn identifier_continues_over_digits_and_underscore() {
    let tokens = tokenize("&a_1+");
    assert_eq!(tokens.len(), 2);
    assert_eq!(tokens[0].kind, TokenKind::Identifier);
    assert_eq!(tokens[0].raw, "&a_1");
    assert_eq!(tokens[1].kind, TokenKind::Unvariable);
    assert_eq!(tokens[1].raw, "+");
}
