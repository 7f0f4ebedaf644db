use template_ast::ast::Node;
use template_ast::errors::{BasicError, Error};
use template_ast::lexer::Lexer;
use template_ast::parser::Parser;
use template_ast::token::{Token, TokenKind};

fn tok(raw: &str, kind: TokenKind) -> Token {
    Token::new(raw.to_string(), kind)
}

fn parse_text(text: &str) -> Result<Node, Box<BasicError>> {
    let mut lexer = Lexer::new(text.to_string());
    let mut parser = Parser::new(lexer.tokenize());
    parser.parse()
}

fn number(text: &str) -> Box<Node> {
    Box::new(Node::NumberLiteral {
        content: text.to_string(),
    })
}

fn identifier(text: &str) -> Box<Node> {
    Box::new(Node::Identifier {
        content: text.to_string(),
    })
}

#[test]
fn negative_number_parses() {
    let mut parser = Parser::new(vec![tok("-", TokenKind::Subtraction), tok("3", TokenKind::Number)]);
    let node = parser.parse_number().unwrap();
    match node {
        Node::NumberLiteral { content } => {
            assert_eq!(content, "-3");
            assert_eq!(content.parse::<f64>().unwrap(), -3.0);
        }
        other => panic!("unexpected node: {:?}", other),
    }
}

#[test]
fn positive_number_parses() {
    let mut parser = Parser::new(vec![tok("+", TokenKind::Addition), tok("2", TokenKind::Number)]);
    let node = parser.parse_number().unwrap();
    match node {
        Node::NumberLiteral { content } => {
            assert_eq!(content, "+2");
            assert_eq!(content.parse::<f64>().unwrap(), 2.0);
        }
        other => panic!("unexpected node: {:?}", other),
    }
}

#[test]
fn ternary_chains_right_associative() {
    // a ? b ; c ? d ; e  ==  a ? b ; (c ? d ; e)
    let mut parser = Parser::new(vec![
        tok("a", TokenKind::Identifier),
        tok("?", TokenKind::QuestionMark),
        tok("b", TokenKind::Identifier),
        tok(";", TokenKind::Semicolon),
        tok("c", TokenKind::Identifier),
        tok("?", TokenKind::QuestionMark),
        tok("d", TokenKind::Identifier),
        tok(";", TokenKind::Semicolon),
        tok("e", TokenKind::Identifier),
    ]);
    let node = parser.parse_ternary().unwrap();
    let expected = Node::Ternary {
        condition: identifier("a"),
        left: identifier("b"),
        right: Box::new(Node::Ternary {
            condition: identifier("c"),
            left: identifier("d"),
            right: identifier("e"),
        }),
    };
    assert_eq!(node, expected);
}

#[test]
fn multiplication_binds_tighter_than_addition() {
    // 2 + 3 * 4  ==  2 + (3 * 4)
    let mut parser = Parser::new(vec![
        tok("2", TokenKind::Number),
        tok("+", TokenKind::Addition),
        tok("3", TokenKind::Number),
        tok("*", TokenKind::Multiplication),
        tok("4", TokenKind::Number),
    ]);
    let node = parser.parse_binary_operation().unwrap();
    let expected = Node::BinaryOp {
        operator: TokenKind::Addition,
        left: number("2"),
        right: Box::new(Node::BinaryOp {
            operator: TokenKind::Multiplication,
            left: number("3"),
            right: number("4"),
        }),
    };
    assert_eq!(node, expected);
}

#[test]
fn unterminated_block_is_error() {
    assert!(parse_text("<5").is_err());
}

#[test]
fn template_chain_has_three_nodes() {
    let root = parse_text("abc<1>def").unwrap();
    let expected = Node::Content {
        content: "abc".to_string(),
        next: Some(Box::new(Node::Block {
            content: number("1"),
            next: Some(Box::new(Node::Content {
                content: "def".to_string(),
                next: None,
            })),
        })),
    };
    assert_eq!(root, expected);
}

#[test]
fn block_with_identifier_parses() {
    let root = parse_text("<&x>").unwrap();
    let expected = Node::Block {
        content: identifier("&x"),
        next: None,
    };
    assert_eq!(root, expected);
}

#[test]
fn parenthesized_expression_groups() {
    // (2 + 3) * 4
    let mut parser = Parser::new(vec![
        tok("(", TokenKind::ParenOpen),
        tok("2", TokenKind::Number),
        tok("+", TokenKind::Addition),
        tok("3", TokenKind::Number),
        tok(")", TokenKind::ParenClose),
        tok("*", TokenKind::Multiplication),
        tok("4", TokenKind::Number),
    ]);
    let node = parser.parse_binary_pow_div().unwrap();
    let expected = Node::BinaryOp {
        operator: TokenKind::Multiplication,
        left: Box::new(Node::BinaryOp {
            operator: TokenKind::Addition,
            left: number("2"),
            right: number("3"),
        }),
        right: number("4"),
    };
    assert_eq!(node, expected);
}

#[test]
fn comparisons_fold_left_associative() {
    // 1 < 2 == 3  ==  (1 < 2) == 3
    let mut parser = Parser::new(vec![
        tok("1", TokenKind::Number),
        tok("<", TokenKind::LessThan),
        tok("2", TokenKind::Number),
        tok("==", TokenKind::Equal),
        tok("3", TokenKind::Number),
    ]);
    let node = parser.parse_condition().unwrap();
    let expected = Node::Condition {
        operator: TokenKind::Equal,
        left: Box::new(Node::Condition {
            operator: TokenKind::LessThan,
            left: number("1"),
            right: number("2"),
        }),
        right: number("3"),
    };
    assert_eq!(node, expected);
}

#[test]
fn number_token_must_hold_digits() {
    let mut parser = Parser::new(vec![tok("abc", TokenKind::Number)]);
    assert!(parser.parse_number().is_err());
}

#[test]
fn sign_without_numeral_is_error() {
    let mut parser = Parser::new(vec![tok("-", TokenKind::Subtraction)]);
    assert!(parser.parse_number().is_err());
}

#[test]
fn missing_semicolon_is_error() {
    let mut parser = Parser::new(vec![
        tok("a", TokenKind::Identifier),
        tok("?", TokenKind::QuestionMark),
        tok("b", TokenKind::Identifier),
        tok("c", TokenKind::Identifier),
    ]);
    assert!(parser.parse_ternary().is_err());
}

#[test]
fn missing_close_paren_is_error() {
    let mut parser = Parser::new(vec![
        tok("(", TokenKind::ParenOpen),
        tok("1", TokenKind::Number),
    ]);
    assert!(parser.parse_binary_parenthese().is_err());
}

#[test]
fn empty_token_stream_is_error() {
    let mut parser = Parser::new(vec![]);
    assert!(parser.parse().is_err());
}

#[test]
fn content_absorbs_tokens_until_block_start() {
    let mut parser = Parser::new(vec![
        tok("x", TokenKind::Unvariable),
        tok("1", TokenKind::Number),
        tok("<", TokenKind::BlockStart),
        tok("2", TokenKind::Number),
        tok(">", TokenKind::BlockEnd),
    ]);
    let root = parser.parse().unwrap();
    let expected = Node::Content {
        content: "x1".to_string(),
        next: Some(Box::new(Node::Block {
            content: number("2"),
            next: None,
        })),
    };
    assert_eq!(root, expected);
}

#[test]
fn content_all_concatenates_raw_texts() {
    let mut parser = Parser::new(vec![
        tok("b", TokenKind::Unvariable),
        tok("1", TokenKind::Number),
        tok("<", TokenKind::BlockStart),
    ]);
    let content = parser.content_all("a");
    assert_eq!(content, "ab1");
}

#[test]
fn expect_does_not_consume_on_mismatch() {
    let mut base = template_ast::base_parser::BaseParser::new(vec![tok("1", TokenKind::Number)]);
    assert!(base.expect(TokenKind::Identifier).is_err());
    let token = base.expect(TokenKind::Number).unwrap();
    assert_eq!(token.raw, "1");
}

#[test]
fn error_carries_its_message() {
    let mut e = BasicError::new("parse failed".to_string());
    assert_eq!(e.message(), "parse failed");
}

#[test]
fn string_token_parses_to_string_literal() {
    let mut parser = Parser::new(vec![tok("hi", TokenKind::StringLit)]);
    let node = parser.parse_basic_type().unwrap();
    let expected = Node::StringLiteral {
        content: "hi".to_string(),
    };
    assert_eq!(node, expected);
}
