//! Moves of card instances between the five zones: deck, hand, field,
//! graveyard and exile, each checked against where the card lies and how
//! much room the zone it goes to has.
use vstd::prelude::*;
use crate::dz::ports::{rid_views, RuntimeCardId, RuntimeCardInstance, Zone};
use crate::text::{copy_string, seq_eq, chars_of, owned};

verus! {

/// Stateless mover of cards between zones.
pub struct ZoneManager;

/// Outcome of a zone move.
#[derive(Debug, PartialEq, Eq)]
pub enum ZoneMoveResult {
    Moved,
    NotInZone { card_id: String, expected: Zone, actual: Zone },
    ZoneFull { zone: Zone, limit: usize },
    InvalidMove { from: Zone, to: Zone, reason: String },
}

/// `s` without any occurrence of `k`, order kept.
pub open spec fn remove_all(s: Seq<Seq<char>>, k: Seq<char>) -> Seq<Seq<char>>
    decreases s.len(),
{
    if s.len() == 0 {
        s
    } else if s.last() == k {
        remove_all(s.drop_last(), k)
    } else {
        remove_all(s.drop_last(), k).push(s.last())
    }
}

/// `b` is `a` moved to zone `z`, nothing else changed.
pub open spec fn moved(a: RuntimeCardInstance, b: RuntimeCardInstance, z: Zone) -> bool {
    b == RuntimeCardInstance { zone: z, ..a }
}

/// The refusal given when a card is not in the zone the move starts from.
pub open spec fn not_in_zone(r: ZoneMoveResult, id: Seq<char>, expected: Zone, actual: Zone) -> bool {
    r matches ZoneMoveResult::NotInZone { card_id, expected: e, actual: a } && card_id@ == id && e == expected
        && a == actual
}

/// Removes every occurrence of `id` from `v`.
pub fn remove_id(v: &mut Vec<RuntimeCardId>, id: &RuntimeCardId)
    ensures
        rid_views(final(v)@) == remove_all(rid_views(old(v)@), id@),
{
    let key = chars_of(id.0.as_str());
    let mut out: Vec<RuntimeCardId> = Vec::new();
    let mut i: usize = 0;
    while i < v.len()
        invariant
            i <= v@.len(),
            key@ == id@,
            rid_views(out@) == remove_all(rid_views(v@.subrange(0, i as int)), id@),
        decreases v@.len() - i,
    {
        let c = chars_of(v[i].0.as_str());
        let ghost before = out@;
        assert(rid_views(v@.subrange(0, i + 1)).drop_last() =~= rid_views(v@.subrange(0, i as int)));
        assert(rid_views(v@.subrange(0, i + 1)).last() == v@[i as int]@);
        if !seq_eq(&c, &key) {
            let e = v[i].copy();
            out.push(e);
            assert(rid_views(out@) =~= rid_views(before).push(e@));
        }
        i = i + 1;
    }
    assert(v@.subrange(0, v@.len() as int) =~= v@);
    *v = out;
}

fn push_id(v: &mut Vec<RuntimeCardId>, id: &RuntimeCardId)
    ensures
        rid_views(final(v)@) == rid_views(old(v)@).push(id@),
{
    let e = id.copy();
    let ghost before = v@;
    v.push(e);
    assert(rid_views(v@) =~= rid_views(before).push(id@));
}

impl ZoneManager {
    pub fn new() -> (r: ZoneManager) {
        ZoneManager
    }

    /// Plays a card: hand to field, if it is in the hand and the field has room.
    pub fn hand_to_field(
        hand: &mut Vec<RuntimeCardId>,
        field: &mut Vec<RuntimeCardId>,
        instance: &mut RuntimeCardInstance,
        card_id: &RuntimeCardId,
        field_limit: usize,
    ) -> (r: ZoneMoveResult)
        ensures
            old(instance).zone != Zone::Hand ==> not_in_zone(r, card_id@, Zone::Hand, old(instance).zone),
            old(instance).zone == Zone::Hand && old(field)@.len() >= field_limit ==> r == (ZoneMoveResult::ZoneFull { zone: Zone::Field, limit: field_limit }),
            r != ZoneMoveResult::Moved ==> final(hand)@ == old(hand)@ && final(field)@ == old(field)@ && *final(instance) == *old(instance),
            old(instance).zone == Zone::Hand && old(field)@.len() < field_limit ==> {
                &&& r == ZoneMoveResult::Moved
                &&& rid_views(final(hand)@) == remove_all(rid_views(old(hand)@), card_id@)
                &&& rid_views(final(field)@) == rid_views(old(field)@).push(card_id@)
                &&& moved(*old(instance), *final(instance), Zone::Field)
            },
    {
        if instance.zone != Zone::Hand {
            return ZoneMoveResult::NotInZone {
                card_id: copy_string(&card_id.0),
                expected: Zone::Hand,
                actual: instance.zone,
            };
        }
        if field.len() >= field_limit {
            return ZoneMoveResult::ZoneFull { zone: Zone::Field, limit: field_limit };
        }
        remove_id(hand, card_id);
        push_id(field, card_id);
        instance.zone = Zone::Field;
        ZoneMoveResult::Moved
    }

    /// Draws the top card of the deck into the hand, if the instance is in
    /// the deck and the hand has room.
    pub fn deck_to_hand(
        deck: &mut Vec<RuntimeCardId>,
        hand: &mut Vec<RuntimeCardId>,
        instance: &mut RuntimeCardInstance,
        hand_limit: usize,
    ) -> (r: ZoneMoveResult)
        requires
            old(instance).zone == Zone::Deck && old(hand)@.len() < hand_limit ==> old(deck)@.len() > 0,
        ensures
            old(instance).zone != Zone::Deck ==> not_in_zone(r, old(instance).runtime_id@, Zone::Deck, old(instance).zone),
            old(instance).zone == Zone::Deck && old(hand)@.len() >= hand_limit ==> r == (ZoneMoveResult::ZoneFull { zone: Zone::Hand, limit: hand_limit }),
            r != ZoneMoveResult::Moved ==> final(deck)@ == old(deck)@ && final(hand)@ == old(hand)@ && *final(instance) == *old(instance),
            old(instance).zone == Zone::Deck && old(hand)@.len() < hand_limit ==> {
                &&& r == ZoneMoveResult::Moved
                &&& final(deck)@ == old(deck)@.drop_last()
                &&& final(hand)@ == old(hand)@.push(old(deck)@.last())
                &&& moved(*old(instance), *final(instance), Zone::Hand)
            },
    {
        if instance.zone != Zone::Deck {
            return ZoneMoveResult::NotInZone {
                card_id: copy_string(&instance.runtime_id.0),
                expected: Zone::Deck,
                actual: instance.zone,
            };
        }
        if hand.len() >= hand_limit {
            return ZoneMoveResult::ZoneFull { zone: Zone::Hand, limit: hand_limit };
        }
        let card_id = deck.pop().unwrap();
        hand.push(card_id);
        instance.zone = Zone::Hand;
        ZoneMoveResult::Moved
    }

    /// Destroys a card: field to graveyard, if it is on the field.
    pub fn field_to_graveyard(
        field: &mut Vec<RuntimeCardId>,
        graveyard: &mut Vec<RuntimeCardId>,
        instance: &mut RuntimeCardInstance,
        card_id: &RuntimeCardId,
    ) -> (r: ZoneMoveResult)
        ensures
            old(instance).zone != Zone::Field ==> not_in_zone(r, card_id@, Zone::Field, old(instance).zone)
                && final(field)@ == old(field)@ && final(graveyard)@ == old(graveyard)@ && *final(instance) == *old(instance),
            old(instance).zone == Zone::Field ==> {
                &&& r == ZoneMoveResult::Moved
                &&& rid_views(final(field)@) == remove_all(rid_views(old(field)@), card_id@)
                &&& rid_views(final(graveyard)@) == rid_views(old(graveyard)@).push(card_id@)
                &&& moved(*old(instance), *final(instance), Zone::Graveyard)
            },
    {
        if instance.zone != Zone::Field {
            return ZoneMoveResult::NotInZone {
                card_id: copy_string(&card_id.0),
                expected: Zone::Field,
                actual: instance.zone,
            };
        }
        remove_id(field, card_id);
        push_id(graveyard, card_id);
        instance.zone = Zone::Graveyard;
        ZoneMoveResult::Moved
    }

    /// Returns a card to its owner's hand: field to hand, if it is on the
    /// field and the hand has room.
    pub fn field_to_hand(
        field: &mut Vec<RuntimeCardId>,
        hand: &mut Vec<RuntimeCardId>,
        instance: &mut RuntimeCardInstance,
        card_id: &RuntimeCardId,
        hand_limit: usize,
    ) -> (r: ZoneMoveResult)
        ensures
            old(instance).zone != Zone::Field ==> not_in_zone(r, card_id@, Zone::Field, old(instance).zone),
            old(instance).zone == Zone::Field && old(hand)@.len() >= hand_limit ==> r == (ZoneMoveResult::ZoneFull { zone: Zone::Hand, limit: hand_limit }),
            r != ZoneMoveResult::Moved ==> final(field)@ == old(field)@ && final(hand)@ == old(hand)@ && *final(instance) == *old(instance),
            old(instance).zone == Zone::Field && old(hand)@.len() < hand_limit ==> {
                &&& r == ZoneMoveResult::Moved
                &&& rid_views(final(field)@) == remove_all(rid_views(old(field)@), card_id@)
                &&& rid_views(final(hand)@) == rid_views(old(hand)@).push(card_id@)
                &&& moved(*old(instance), *final(instance), Zone::Hand)
            },
    {
        if instance.zone != Zone::Field {
            return ZoneMoveResult::NotInZone {
                card_id: copy_string(&card_id.0),
                expected: Zone::Field,
                actual: instance.zone,
            };
        }
        if hand.len() >= hand_limit {
            return ZoneMoveResult::ZoneFull { zone: Zone::Hand, limit: hand_limit };
        }
        remove_id(field, card_id);
        push_id(hand, card_id);
        instance.zone = Zone::Hand;
        ZoneMoveResult::Moved
    }

    /// Discards a card: hand to graveyard, if it is in the hand.
    pub fn hand_to_graveyard(
        hand: &mut Vec<RuntimeCardId>,
        graveyard: &mut Vec<RuntimeCardId>,
        instance: &mut RuntimeCardInstance,
        card_id: &RuntimeCardId,
    ) -> (r: ZoneMoveResult)
        ensures
            old(instance).zone != Zone::Hand ==> not_in_zone(r, card_id@, Zone::Hand, old(instance).zone)
                && final(hand)@ == old(hand)@ && final(graveyard)@ == old(graveyard)@ && *final(instance) == *old(instance),
            old(instance).zone == Zone::Hand ==> {
                &&& r == ZoneMoveResult::Moved
                &&& rid_views(final(hand)@) == remove_all(rid_views(old(hand)@), card_id@)
                &&& rid_views(final(graveyard)@) == rid_views(old(graveyard)@).push(card_id@)
                &&& moved(*old(instance), *final(instance), Zone::Graveyard)
            },
    {
        if instance.zone != Zone::Hand {
            return ZoneMoveResult::NotInZone {
                card_id: copy_string(&card_id.0),
                expected: Zone::Hand,
                actual: instance.zone,
            };
        }
        remove_id(hand, card_id);
        push_id(graveyard, card_id);
        instance.zone = Zone::Graveyard;
        ZoneMoveResult::Moved
    }

    /// Exiles a card from whatever zone `from` is. A card already in exile
    /// cannot move again: it is refused and nothing changes.
    pub fn to_exile(
        from: &mut Vec<RuntimeCardId>,
        instance: &mut RuntimeCardInstance,
        card_id: &RuntimeCardId,
    ) -> (r: ZoneMoveResult)
        ensures
            old(instance).zone == Zone::Exile ==> {
                &&& r matches ZoneMoveResult::InvalidMove { from: f, to: t, reason } && f == Zone::Exile
                    && t == Zone::Exile && reason@ == "放逐区不可再次移动"@
                &&& final(from)@ == old(from)@
                &&& *final(instance) == *old(instance)
            },
            old(instance).zone != Zone::Exile ==> {
                &&& r == ZoneMoveResult::Moved
                &&& rid_views(final(from)@) == remove_all(rid_views(old(from)@), card_id@)
                &&& moved(*old(instance), *final(instance), Zone::Exile)
            },
    {
        if instance.zone == Zone::Exile {
            return ZoneMoveResult::InvalidMove {
                from: Zone::Exile,
                to: Zone::Exile,
                reason: owned("放逐区不可再次移动"),
            };
        }
        remove_id(from, card_id);
        instance.zone = Zone::Exile;
        ZoneMoveResult::Moved
    }

    /// Recovers a card: graveyard to hand, if it is in the graveyard and the
    /// hand has room.
    pub fn graveyard_to_hand(
        graveyard: &mut Vec<RuntimeCardId>,
        hand: &mut Vec<RuntimeCardId>,
        instance: &mut RuntimeCardInstance,
        card_id: &RuntimeCardId,
        hand_limit: usize,
    ) -> (r: ZoneMoveResult)
        ensures
            old(instance).zone != Zone::Graveyard ==> not_in_zone(r, card_id@, Zone::Graveyard, old(instance).zone),
            old(instance).zone == Zone::Graveyard && old(hand)@.len() >= hand_limit ==> r == (ZoneMoveResult::ZoneFull { zone: Zone::Hand, limit: hand_limit }),
            r != ZoneMoveResult::Moved ==> final(graveyard)@ == old(graveyard)@ && final(hand)@ == old(hand)@ && *final(instance) == *old(instance),
            old(instance).zone == Zone::Graveyard && old(hand)@.len() < hand_limit ==> {
                &&& r == ZoneMoveResult::Moved
                &&& rid_views(final(graveyard)@) == remove_all(rid_views(old(graveyard)@), card_id@)
                &&& rid_views(final(hand)@) == rid_views(old(hand)@).push(card_id@)
                &&& moved(*old(instance), *final(instance), Zone::Hand)
            },
    {
        if instance.zone != Zone::Graveyard {
            return ZoneMoveResult::NotInZone {
                card_id: copy_string(&card_id.0),
                expected: Zone::Graveyard,
                actual: instance.zone,
            };
        }
        if hand.len() >= hand_limit {
            return ZoneMoveResult::ZoneFull { zone: Zone::Hand, limit: hand_limit };
        }
        remove_id(graveyard, card_id);
        push_id(hand, card_id);
        instance.zone = Zone::Hand;
        ZoneMoveResult::Moved
    }
}

} // verus!
