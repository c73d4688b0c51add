//! Decks dealt from a distribution table: every player gets cards, each
//! card has an owner, and too few players are refused.
use cardmaker::dz::factory::build_decks;
use cardmaker::dz::setup::GameSetup;

/// A table in the standard ratio: 5 faction and 12 career cards once each,
/// 40 construct cards twice and 21 basic cards three times.
fn standard_table() -> String {
    let mut entries: Vec<String> = Vec::new();
    for i in 1..=17 {
        let cat = if i <= 5 { "阵营" } else { "职业" };
        entries.push(format!("{{\"id\": \"ZY{:02}\", \"name\": \"卡{}\", \"category\": \"{}\", \"count\": 1}}", i, i, cat));
    }
    for i in 1..=40 {
        entries.push(format!("{{\"id\": \"GZ{:02}\", \"name\": \"构{}\", \"category\": \"构筑卡\", \"count\": 2}}", i, i));
    }
    for i in 1..=21 {
        entries.push(format!("{{\"id\": \"JB{:02}\", \"name\": \"基{}\", \"category\": \"基本牌\", \"count\": 3}}", i, i));
    }
    format!("\u{feff}{{\"entries\": [{}]}}", entries.join(", "))
}

#[test]
fn test_setup_creates_two_player_game() {
    let result = GameSetup::init_standard_game(&standard_table(), 2);
    assert!(result.is_ok(), "Setup failed: {:?}", result.err());
    let players = result.unwrap();
    assert_eq!(players.len(), 2);
    for p in &players {
        assert!(!p.deck.is_empty(), "Player {} has empty deck", p.id.0);
    }
}

#[test]
fn test_setup_creates_four_player_game() {
    let result = GameSetup::init_standard_game(&standard_table(), 4);
    assert!(result.is_ok());
    assert_eq!(result.unwrap().len(), 4);
}

#[test]
fn test_setup_rejects_single_player() {
    let result = GameSetup::init_standard_game(&standard_table(), 1);
    assert!(result.is_err());
}

#[test]
fn test_build_instance_map_deduplicates() {
    let players = GameSetup::init_standard_game(&standard_table(), 2).unwrap();
    let map = GameSetup::build_instance_map(&players);
    assert!(map.len() >= 10);
}

#[test]
fn test_factory_creates_instances() {
    let setup = build_decks(&standard_table(), "cards/_distribution.json", 2).expect("factory failed");
    assert!(!setup.all_instances.is_empty(), "No instances created");
}

#[test]
fn test_factory_deck_sizes() {
    let setup = build_decks(&standard_table(), "cards/_distribution.json", 2).expect("factory failed");
    assert_eq!(setup.player_decks.len(), 2);
    for deck in &setup.player_decks {
        assert!(!deck.is_empty(), "Player deck must not be empty");
    }
}

#[test]
fn test_factory_all_instances_have_owner() {
    let setup = build_decks(&standard_table(), "cards/_distribution.json", 4).expect("factory failed");
    for deck in &setup.player_decks {
        for inst in deck {
            assert_ne!(inst.owner.0, "unassigned");
        }
    }
}

#[test]
fn test_factory_invalid_player_count() {
    let result = build_decks(&standard_table(), "cards/_distribution.json", 1);
    assert!(result.is_err());
}

// Exact counts of the standard table.

#[test]
fn test_factory_standard_table_counts() {
    let setup = build_decks(&standard_table(), "t", 2).unwrap();
    assert_eq!(setup.all_instances.len(), 160);
    // 5 factions and 12 careers alternate; 80 constructs and 63 basics are cut in halves.
    let sizes: Vec<usize> = setup.player_decks.iter().map(|d| d.len()).collect();
    assert_eq!(sizes, vec![3 + 6 + 40 + 31, 2 + 6 + 40 + 31]);
    let mut ids: Vec<&str> = setup.all_instances.iter().map(|i| i.runtime_id.0.as_str()).collect();
    ids.sort();
    ids.dedup();
    assert_eq!(ids.len(), 160);
}

#[test]
fn test_setup_standard_table_deck_sizes() {
    let players = GameSetup::init_standard_game(&standard_table(), 2).unwrap();
    // per player: 5/2 = 2 factions, 12/2 = 6 careers, 40/2 = 20 constructs, 21/2 = 10 basics
    for p in &players {
        assert_eq!(p.deck.len(), 2 + 6 + 20 + 10);
        assert!(p.hand.is_empty() && p.field.is_empty() && p.graveyard.is_empty());
    }
    assert_eq!(players[0].id.0, "P1");
    assert_eq!(players[1].id.0, "P2");
}

#[test]
fn test_setup_rejects_nine_players() {
    let result = GameSetup::init_standard_game(&standard_table(), 9);
    assert_eq!(result.err(), Some("玩家数必须在 2-8 之间".to_string()));
}

#[test]
fn test_factory_missing_entries() {
    let result = build_decks("{\"cards\": []}", "t", 2);
    assert_eq!(result.err(), Some("配比表缺少 entries 数组".to_string()));
}

#[test]
fn test_factory_bad_json_names_source() {
    let result = build_decks("{", "d.json", 2);
    assert!(result.err().unwrap().starts_with("解析JSON失败 d.json: "));
}
