//! Tokens of card text.
use cardmaker::parser::lexer::{tokenize, Token};


#[test]
fn test_arrow_count() {
    let t = tokenize("消耗1 → 自身 → 造成 → 目标 → 备注");
    assert_eq!(t.iter().filter(|x| matches!(x, Token::Arrow)).count(), 4);
}

#[test]
fn test_brackets() {
    let t = tokenize("[韬光养晦]");
    assert!(matches!(t[0], Token::LBracket));
    assert!(matches!(t[2], Token::RBracket));
}

#[test]
fn test_tag_def() {
    let t = tokenize("[韬光养晦]定义：");
    assert!(matches!(t[0], Token::LBracket));
}

#[test]
fn test_empty_input() {
    let t = tokenize("");
    assert!(t.is_empty());
}

#[test]
fn test_only_whitespace() {
    let t = tokenize("   \n  \n  ");
    assert!(t.is_empty() || t.iter().all(|tok| matches!(tok, Token::Newline)));
}

#[test]
fn test_single_text_token() {
    let t = tokenize("测试");
    assert_eq!(t.len(), 1);
    assert!(matches!(&t[0], Token::Text(s) if s == "测试"));
}

#[test]
fn test_mixed_text_and_arrows() {
    let t = tokenize("消耗1 → 自身 → 造成 → 1点伤害");
    let arrows = t.iter().filter(|tok| matches!(tok, Token::Arrow)).count();
    assert_eq!(arrows, 3);
}

#[test]
fn test_unicode_full_width_parens() {
    let t = tokenize("（额外）");
    let lparen = t.iter().filter(|tok| matches!(tok, Token::LParen)).count();
    let rparen = t.iter().filter(|tok| matches!(tok, Token::RParen)).count();
    assert_eq!(lparen, 1);
    assert_eq!(rparen, 1);
}

#[test]
fn test_number_token() {
    let t = tokenize("造成3点伤害");
    let has_number = t.iter().any(|tok| matches!(tok, Token::Number(n) if n == "3"));
    assert!(has_number);
}

#[test]
fn test_dash_token() {
    let t = tokenize("—");
    assert!(matches!(&t[0], Token::Dash));
}

#[test]
fn test_double_arrow() {
    let t = tokenize("--> →");
    let arrows = t.iter().filter(|tok| matches!(tok, Token::Arrow)).count();
    assert_eq!(arrows, 2);
}
