//! The effect stack and the effect bus.
use cardmaker::dz::effect_engine::{DamageType, EffectAction};
use cardmaker::dz::effect_stack::{EffectBus, EffectStack};
use cardmaker::dz::ports::{PlayerId, RuntimeCardId, RuntimeCardInstance, StaticCardId, Zone};


fn make_instance(id: &str, hp: u32, energy: u32, armor: u32) -> RuntimeCardInstance {
    RuntimeCardInstance {
        runtime_id: RuntimeCardId(id.into()),
        static_def_ref: StaticCardId("TEST".into()),
        zone: Zone::Field,
        owner: PlayerId("P1".into()),
        hp, armor, energy,
        marks: Default::default(),
    }
}

#[test]
fn test_stack_lifo_order() {
    let mut source = make_instance("src", 10, 10, 0);
    let mut target = make_instance("tgt", 10, 10, 0);

    let mut stack = EffectStack::new();
    assert!(stack.is_empty());

    // Push nested effects
    stack.push(&source, &target,
        vec![EffectAction::DealDamage { amount: 3, damage_type: DamageType::Physical }],
        "效果A");
    stack.push(&source, &target,
        vec![EffectAction::DealDamage { amount: 5, damage_type: DamageType::Physical }],
        "效果B");

    assert_eq!(stack.size(), 2);

    // Resolve top first (LIFO: 效果B first)
    let r = stack.resolve_top(&mut source, &mut target, 1).unwrap();
    assert_eq!(r.damage_dealt, 5);
    assert_eq!(target.hp, 5); // 10 - 5
    assert_eq!(stack.size(), 1);

    // Resolve remaining (效果A)
    let r2 = stack.resolve_top(&mut source, &mut target, 1).unwrap();
    assert_eq!(r2.damage_dealt, 3);
    assert_eq!(target.hp, 2); // 5 - 3
    assert!(stack.is_empty());
}

#[test]
fn test_stack_nested_depth() {
    let mut source = make_instance("src", 10, 10, 0);
    let mut target = make_instance("tgt", 10, 10, 0);
    let mut stack = EffectStack::new();

    for i in 0..5 {
        stack.push(&source, &target,
            vec![EffectAction::RestoreHp { amount: 1 }],
            &format!("嵌套效果{}", i));
    }

    assert_eq!(stack.size(), 5);
    assert_eq!(stack.max_depth_reached(), 5);

    // Resolve all
    let results = stack.resolve_all(&mut source, &mut target, 1);
    assert_eq!(results.len(), 5);
    assert!(stack.is_empty());
    assert_eq!(target.hp, 15); // 10 + 5*1 = 15
}

#[test]
fn test_effect_bus_basic() {
    let mut bus = EffectBus::new();
    bus.register(|event, _source, _target| {
        if event == "damage_received" {
            vec![EffectAction::GainArmor { amount: 2 }]
        } else {
            vec![]
        }
    });

    let src = make_instance("src", 10, 10, 0);
    let tgt = make_instance("tgt", 10, 10, 0);
    let actions = bus.trigger("damage_received", &src, &tgt);
    assert!(!actions.is_empty());
}
