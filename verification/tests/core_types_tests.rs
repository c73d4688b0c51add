//! Shared core types: zones and error messages.

use cardmaker::base::{CoreError, Zone};

#[test]
fn test_zone_equality() {
    assert_eq!(Zone::Deck, Zone::Deck);
    assert_ne!(Zone::Deck, Zone::Hand);
    assert_eq!(Zone::Field, Zone::Field);
    assert_eq!(Zone::Graveyard, Zone::Graveyard);
    assert_eq!(Zone::Exile, Zone::Exile);
}

#[test]
fn test_error_display_not_found() {
    let err = CoreError::NotFound {
        entity: "卡牌".to_string(),
        id: "card_999".to_string(),
    };
    let s = err.message();
    assert!(s.contains("卡牌"));
    assert!(s.contains("card_999"));
    assert!(s.contains("not found"));
}

#[test]
fn test_error_display_parse_error() {
    let err = CoreError::ParseError {
        card: "击敌".to_string(),
        detail: "缺失箭头分隔符".to_string(),
    };
    let s = err.message();
    assert!(s.contains("击敌"));
    assert!(s.contains("parse error"));
}

#[test]
fn test_error_display_validate_error() {
    let err = CoreError::ValidateError {
        card: "御守".to_string(),
        detail: "主语不合法".to_string(),
    };
    let s = err.message();
    assert!(s.contains("御守"));
    assert!(s.contains("validation error"));
}

#[test]
fn test_error_display_duel_error() {
    let err = CoreError::DuelError {
        detail: "场景不存在".to_string(),
    };
    let s = err.message();
    assert!(s.contains("duel error"));
}

#[test]
fn test_error_display_io_error() {
    let err = CoreError::IoError {
        detail: "权限不足".to_string(),
    };
    let s = err.message();
    assert!(s.contains("io error"));
}

#[test]
fn test_error_debug_format() {
    let err = CoreError::NotFound {
        entity: "标签".to_string(),
        id: "tag_99".to_string(),
    };
    let dbg = format!("{:?}", err);
    assert!(dbg.contains("NotFound"));
    assert!(dbg.contains("标签"));
}

#[test]
fn error_message_exact_text() {
    let err = CoreError::DuelError {
        detail: "场景不存在".to_string(),
    };
    assert_eq!(err.message(), "duel error: 场景不存在");
    let err = CoreError::NotFound {
        entity: "卡牌".to_string(),
        id: "card_1".to_string(),
    };
    assert_eq!(err.message(), "卡牌 not found: card_1");
}
