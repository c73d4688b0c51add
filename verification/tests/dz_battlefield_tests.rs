//! Battlefield set-up, draws and plays; duel turn rules.
use cardmaker::dz::battlefield::BattlefieldModule;
use cardmaker::dz::duel_engine::DuelEngine;
use cardmaker::dz::ports::{BattlefieldPort, DuelEnginePort, Phase, PlayerId, RuntimeCardId};

#[test]
fn test_battlefield_init_2_players() {
    let mut bf = BattlefieldModule::new();
    let result = bf.init_game(2);
    assert!(result.is_ok(), "2 人游戏初始化应成功: {:?}", result.err());
    assert_eq!(bf.get_turn(), 1);
    assert_eq!(bf.get_phase(), Phase::Draw);
}

#[test]
fn test_battlefield_init_3_players() {
    let mut bf = BattlefieldModule::new();
    let result = bf.init_game(3);
    assert!(result.is_ok(), "3 人游戏初始化应成功: {:?}", result.err());
    assert_eq!(bf.get_turn(), 1);
}

#[test]
fn test_battlefield_init_4_players() {
    let mut bf = BattlefieldModule::new();
    let result = bf.init_game(4);
    assert!(result.is_ok(), "4 人游戏初始化应成功: {:?}", result.err());

    for i in 1..=4 {
        let pid = PlayerId(format!("P{}", i));
        let hand = bf.get_player_hand(pid.clone());
        let field = bf.get_player_field(pid);
        assert!(hand.is_empty(), "P{} 初始手牌应为空", i);
        assert!(field.is_empty(), "P{} 初始战场应为空", i);
    }
}

#[test]
fn test_duel_engine_init_1_player_fails() {
    let mut engine = DuelEngine::new();
    let result = engine.init_duel(1);
    assert!(result.is_err(), "1 名玩家初始化应失败");
    let err_msg = result.unwrap_err();
    assert!(err_msg.contains("2~8") || err_msg.contains("玩家数"), "错误信息应提示玩家数范围: {}", err_msg);
}

#[test]
fn test_duel_engine_init_9_players_fails() {
    let mut engine = DuelEngine::new();
    let result = engine.init_duel(9);
    assert!(result.is_err(), "9 名玩家初始化应失败");
    let err_msg = result.unwrap_err();
    assert!(err_msg.contains("2~8") || err_msg.contains("玩家数"), "错误信息应提示玩家数范围: {}", err_msg);
}

#[test]
fn test_duel_engine_init_2_players_succeeds() {
    let mut engine = DuelEngine::new();
    let result = engine.init_duel(2);
    assert!(result.is_ok(), "2 名玩家初始化应成功: {:?}", result.err());
}

#[test]
fn test_duel_engine_init_8_players_succeeds() {
    let mut engine = DuelEngine::new();
    let result = engine.init_duel(8);
    assert!(result.is_ok(), "8 名玩家初始化应成功: {:?}", result.err());
}

#[test]
fn test_battlefield_draw_card_empty_deck() {
    let mut bf = BattlefieldModule::new();
    bf.init_game(2).expect("初始化应成功");

    let result = bf.draw_card(PlayerId("P1".into()));
    assert!(result.is_err(), "空牌堆抽牌应失败");
    let err_msg = result.unwrap_err();
    assert!(err_msg.contains("已空") || err_msg.contains("牌堆"), "错误信息应提示牌堆为空: {}", err_msg);
}

#[test]
fn test_battlefield_play_card_not_in_hand() {
    let mut bf = BattlefieldModule::new();
    bf.init_game(2).expect("初始化应成功");

    let card_id = RuntimeCardId("nonexistent_card".into());
    let result = bf.play_card(PlayerId("P1".into()), card_id, None);
    assert!(result.is_err(), "手牌中不存在的卡牌,打出应失败");
}

#[test]
fn test_duel_engine_turn_flow() {
    let mut engine = DuelEngine::new();
    engine.init_duel(2).expect("初始化应成功");

    assert!(engine.start_turn(PlayerId("P1".into())).is_ok());
    assert!(engine.end_turn(PlayerId("P1".into())).is_ok());

    assert!(engine.start_turn(PlayerId("P2".into())).is_ok());
    assert!(engine.end_turn(PlayerId("P2".into())).is_ok());

    assert!(engine.start_turn(PlayerId("P1".into())).is_ok());
}

#[test]
fn test_duel_engine_wrong_player_turn_fails() {
    let mut engine = DuelEngine::new();
    engine.init_duel(2).expect("初始化应成功");

    let result = engine.start_turn(PlayerId("P2".into()));
    assert!(result.is_err(), "非活跃玩家开始回合应失败");
}

#[test]
fn test_duel_engine_end_turn_wrong_player_fails() {
    let mut engine = DuelEngine::new();
    engine.init_duel(2).expect("初始化应成功");

    engine.start_turn(PlayerId("P1".into())).expect("P1 开始回合应成功");

    let result = engine.end_turn(PlayerId("P2".into()));
    assert!(result.is_err(), "非活跃玩家结束回合应失败");
}

#[test]
fn test_duel_engine_effect_log() {
    let mut engine = DuelEngine::new();
    engine.init_duel(2).expect("初始化应成功");
    engine.start_turn(PlayerId("P1".into())).expect("开始回合应成功");
    engine.end_turn(PlayerId("P1".into())).expect("结束回合应成功");

    let log = engine.get_effect_log();
    assert!(!log.is_empty(), "效果日志不应为空");
    assert!(log.iter().any(|e| e.action == "init_duel"), "日志应包含 init_duel");
    assert!(log.iter().any(|e| e.action == "start_turn"), "日志应包含 start_turn");
    assert!(log.iter().any(|e| e.action == "end_turn"), "日志应包含 end_turn");
}
