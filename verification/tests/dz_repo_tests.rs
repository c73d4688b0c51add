//! Card folders by name, and the card rebuilt from the distribution table.
use cardmaker::dz::ports::StaticCardId;
use cardmaker::dz::repo::{card_ids_from_names, dir_for_card, is_nonblank, DegradationChain, FallbackLevel};

fn names(v: &[&str]) -> Vec<String> { v.iter().map(|s| s.to_string()).collect() }

#[test]
fn test_card_ids_from_folder_names() {
    let ids = card_ids_from_names(&names(&["ZY01-儒家", "GZ12-指虎", "_shared", "assets", "JB03"]));
    let got: Vec<&str> = ids.iter().map(|i| i.0.as_str()).collect();
    assert_eq!(got, vec!["ZY01", "GZ12", "JB03"]);
    assert!(card_ids_from_names(&names(&["-ZY01", "zy01-x"])).is_empty());
}

#[test]
fn test_dir_for_card_first_prefix_match() {
    let n = names(&["GZ01-a", "ZY01-儒家", "ZY01-copy"]);
    assert_eq!(dir_for_card(&n, &StaticCardId("ZY01".into())), Some(1));
    assert_eq!(dir_for_card(&n, &StaticCardId("JB01".into())), None);
}

#[test]
fn test_nonblank_files() {
    assert!(!is_nonblank(" \n\t "));
    assert!(is_nonblank(" x "));
}

#[test]
fn test_rebuild_from_distribution() {
    let table = "\u{feff}{\"entries\": [{\"id\": \"GZ01\", \"name\": \"指虎\", \"category\": \"兵刃\"}, {\"id\": \"JB01\"}]}";
    let (name, cat, source) = DegradationChain::rebuild_from_distribution(table, &StaticCardId("GZ01".into())).unwrap();
    assert_eq!((name.as_str(), cat.as_str()), ("指虎", "兵刃"));
    assert_eq!(source, "指虎 [兵刃, 恢复]\n  请重新编辑效果文本。\n  —常驻：此卡从备份重建。\n");
    let (name, cat, _) = DegradationChain::rebuild_from_distribution(table, &StaticCardId("JB01".into())).unwrap();
    assert_eq!((name.as_str(), cat.as_str()), ("JB01", "未知"));
    let missing = DegradationChain::rebuild_from_distribution(table, &StaticCardId("ZY09".into()));
    assert_eq!(missing.err(), Some("ZY09 不在配比表中，无法重建".to_string()));
    let bad = DegradationChain::rebuild_from_distribution("{\"x\": 1}", &StaticCardId("A".into()));
    assert_eq!(bad.err(), Some("配比表结构异常".to_string()));
    assert!(DegradationChain::rebuild_from_distribution("{", &StaticCardId("A".into())).unwrap_err().starts_with("解析配比表: "));
    assert_ne!(FallbackLevel::Direct, FallbackLevel::Rebuilt);
}
