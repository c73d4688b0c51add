//! The logged text of effect kinds without a line of their own.
use cardmaker::base::{DamageType, PlayerSide};
use cardmaker::duel::effect::EffectType;
use cardmaker::duel::effect_text::effect_debug_text;

#[test]
fn effect_text_matches_derived_debug() {
    let samples = vec![
        EffectType::Eliminate,
        EffectType::GrantArmor { amount: -3 },
        EffectType::Seal { quality: "金".to_string(), duration: "本回合".to_string() },
        EffectType::Discard { count: 2, quality: Some("红\"色\\".to_string()) },
        EffectType::Draw { count: 1, card_type: None },
        EffectType::GainMark { mark_name: "仁心".to_string(), count: 1, max: Some(3) },
        EffectType::IncreaseStat { stat: "伤害".to_string(), amount: 1, permanent: true },
        EffectType::BonusDamage { amount: 2, damage_type: DamageType::PercentMax },
        EffectType::RevealHand { target_side: PlayerSide::Self_ },
        EffectType::ForceEffect { description: "a\nb\tc\r\u{1}\u{1f}\u{7f}\0".to_string() },
    ];
    for e in samples {
        assert_eq!(effect_debug_text(&e), format!("{:?}", e));
    }
}
