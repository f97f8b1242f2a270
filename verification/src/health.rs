//! Health, damage and healing of the creatures in a small world.
use vstd::prelude::*;

verus! {

/// Hit points.
#[derive(Clone, Copy, Debug, PartialEq, Eq, Structural)]
pub struct Health {
    pub amount: u16,
}

/// Hit points taken away.
#[derive(Clone, Copy, Debug, PartialEq, Eq, Structural)]
pub struct Damage {
    pub amount: u16,
}

/// A creature: the entity it is, its name, its health, and whether damage
/// passes it by.
#[derive(Clone, Debug)]
pub struct Creature {
    pub entity: u64,
    pub name: String,
    pub health: Health,
    pub immortal: bool,
}

/// The damage each greeting deals.
pub const GREETING_DAMAGE: u16 = 5;

/// The damage each emitted event carries.
pub const EMITTED_DAMAGE: u16 = 4;

/// The total damage that `events` deal to entity `e`.
pub open spec fn damage_to(events: Seq<(u64, Damage)>, e: u64) -> int
    decreases events.len(),
{
    if events.len() == 0 {
        0
    } else {
        damage_to(events.drop_last(), e) + if events.last().0 == e {
            events.last().1.amount as int
        } else {
            0
        }
    }
}

/// The index of the first creature that is not immortal, if any.
pub open spec fn first_mortal(cs: Seq<Creature>) -> Option<int>
    decreases cs.len(),
{
    if cs.len() == 0 {
        None
    } else if !cs[0].immortal {
        Some(0)
    } else {
        match first_mortal(cs.drop_first()) {
            Some(i) => Some(i + 1),
            None => None,
        }
    }
}

/// Every creature but the `i`-th is as it was.
pub open spec fn others_unchanged(old_cs: Seq<Creature>, cs: Seq<Creature>, i: int) -> bool {
    &&& cs.len() == old_cs.len()
    &&& forall|j: int| 0 <= j < cs.len() && j != i ==> #[trigger] cs[j] == old_cs[j]
}

/// Greets every creature, which costs each of them five hit points.
pub fn hello(creatures: &mut Vec<Creature>)
    requires
        forall|i: int|
            0 <= i < old(creatures).len() ==> #[trigger] old(creatures)[i].health.amount
                >= GREETING_DAMAGE,
    ensures
        final(creatures).len() == old(creatures).len(),
        forall|i: int|
            0 <= i < final(creatures).len() ==> #[trigger] final(creatures)[i] == (Creature {
                health: Health { amount: (old(creatures)[i].health.amount - GREETING_DAMAGE) as u16 },
                ..old(creatures)[i]
            }),
{
    let mut i: usize = 0;
    while i < creatures.len()
        invariant
            0 <= i <= creatures.len(),
            creatures.len() == old(creatures).len(),
            forall|j: int|
                0 <= j < creatures.len() ==> #[trigger] creatures[j] == if j < i {
                    Creature {
                        health: Health {
                            amount: (old(creatures)[j].health.amount - GREETING_DAMAGE) as u16,
                        },
                        ..old(creatures)[j]
                    }
                } else {
                    old(creatures)[j]
                },
            forall|j: int|
                0 <= j < old(creatures).len() ==> #[trigger] old(creatures)[j].health.amount
                    >= GREETING_DAMAGE,
        decreases creatures.len() - i,
    {
        creatures[i].health.amount = creatures[i].health.amount - GREETING_DAMAGE;
        i += 1;
    }
}

/// Heals every creature by one hit point.
pub fn heal(creatures: &mut Vec<Creature>)
    requires
        forall|i: int|
            0 <= i < old(creatures).len() ==> #[trigger] old(creatures)[i].health.amount < u16::MAX,
    ensures
        final(creatures).len() == old(creatures).len(),
        forall|i: int|
            0 <= i < final(creatures).len() ==> #[trigger] final(creatures)[i] == (Creature {
                health: Health { amount: (old(creatures)[i].health.amount + 1) as u16 },
                ..old(creatures)[i]
            }),
{
    let mut i: usize = 0;
    while i < creatures.len()
        invariant
            0 <= i <= creatures.len(),
            creatures.len() == old(creatures).len(),
            forall|j: int|
                0 <= j < creatures.len() ==> #[trigger] creatures[j] == if j < i {
                    Creature {
                        health: Health { amount: (old(creatures)[j].health.amount + 1) as u16 },
                        ..old(creatures)[j]
                    }
                } else {
                    old(creatures)[j]
                },
            forall|j: int|
                0 <= j < old(creatures).len() ==> #[trigger] old(creatures)[j].health.amount
                    < u16::MAX,
        decreases creatures.len() - i,
    {
        creatures[i].health.amount = creatures[i].health.amount + 1;
        i += 1;
    }
}

/// The first creature that is not immortal is the `i`-th when all before it
/// are immortal; there is none when all are.
proof fn lemma_first_mortal(cs: Seq<Creature>, i: int)
    requires
        0 <= i <= cs.len(),
        forall|j: int| 0 <= j < i ==> #[trigger] cs[j].immortal,
    ensures
        i < cs.len() && !cs[i].immortal ==> first_mortal(cs) == Some(i),
        i == cs.len() ==> first_mortal(cs) is None,
    decreases i,
{
    if i > 0 {
        let t = cs.drop_first();
        assert forall|j: int| 0 <= j < i - 1 implies #[trigger] t[j].immortal by {
            assert(cs[j + 1].immortal);
        }
        lemma_first_mortal(t, i - 1);
    }
}

/// Damage to an entity only grows as more events come.
proof fn lemma_damage_to_prefix(events: Seq<(u64, Damage)>, k: int, e: u64)
    requires
        0 <= k <= events.len(),
    ensures
        0 <= damage_to(events.take(k), e) <= damage_to(events, e),
    decreases events.len() - k,
{
    if k < events.len() {
        lemma_damage_to_prefix(events, k + 1, e);
        assert(events.take(k + 1).drop_last() =~= events.take(k));
        lemma_damage_to_nonneg(events.take(k), e);
    } else {
        assert(events.take(k) =~= events);
        lemma_damage_to_nonneg(events, e);
    }
}

proof fn lemma_damage_to_nonneg(events: Seq<(u64, Damage)>, e: u64)
    ensures
        damage_to(events, e) >= 0,
    decreases events.len(),
{
    if events.len() > 0 {
        lemma_damage_to_nonneg(events.drop_last(), e);
    }
}

/// Applies the damage events: the first creature that is not immortal reads
/// them all and takes the damage meant for it; the events are then used up,
/// so no other creature takes any.
pub fn recv_dmg(creatures: &mut Vec<Creature>, events: &Vec<(u64, Damage)>)
    requires
        first_mortal(old(creatures)@) matches Some(i) ==> damage_to(events@, old(creatures)[i].entity)
            <= old(creatures)[i].health.amount,
    ensures
        first_mortal(old(creatures)@) is None ==> final(creatures)@ == old(creatures)@,
        final(creatures).len() == old(creatures).len(),
        forall|j: int|
            0 <= j < old(creatures).len() && #[trigger] old(creatures)[j].immortal
                ==> final(creatures)[j] == old(creatures)[j],
        first_mortal(old(creatures)@) matches Some(i) ==> {
            &&& others_unchanged(old(creatures)@, final(creatures)@, i)
            &&& final(creatures)[i] == (Creature {
                health: Health {
                    amount: (old(creatures)[i].health.amount - damage_to(
                        events@,
                        old(creatures)[i].entity,
                    )) as u16,
                },
                ..old(creatures)[i]
            })
        },
{
    let mut i: usize = 0;
    while i < creatures.len() && creatures[i].immortal
        invariant
            0 <= i <= creatures.len(),
            forall|j: int| 0 <= j < i ==> #[trigger] creatures[j].immortal,
        decreases creatures.len() - i,
    {
        i += 1;
    }
    proof {
        lemma_first_mortal(creatures@, i as int);
    }
    if i < creatures.len() {
        assert(!old(creatures)[i as int].immortal);
        let e = creatures[i].entity;
        let ghost start = creatures[i as int].health.amount;
        let mut k: usize = 0;
        while k < events.len()
            invariant
                0 <= k <= events.len(),
                i < creatures.len(),
                creatures.len() == old(creatures).len(),
                e == old(creatures)[i as int].entity,
                start == old(creatures)[i as int].health.amount,
                damage_to(events@, e) <= start,
                creatures[i as int] == (Creature {
                    health: Health { amount: (start - damage_to(events@.take(k as int), e)) as u16 },
                    ..old(creatures)[i as int]
                }),
                forall|j: int|
                    0 <= j < creatures.len() && j != i ==> #[trigger] creatures[j] == old(
                        creatures,
                    )[j],
            decreases events.len() - k,
        {
            proof {
                lemma_damage_to_prefix(events@, k + 1, e);
                lemma_damage_to_prefix(events@, k as int, e);
                assert(events@.take(k + 1).drop_last() =~= events@.take(k as int));
            }
            if events[k].0 == e {
                creatures[i].health.amount = creatures[i].health.amount - events[k].1.amount;
            }
            k += 1;
        }
        assert(events@.take(events.len() as int) =~= events@);
    } else {
        assert(creatures@ =~= old(creatures)@);
    }
}

/// One damage event of four hit points for every entity, in order.
pub fn emit_dmg(entities: &Vec<u64>) -> (events: Vec<(u64, Damage)>)
    ensures
        events.len() == entities.len(),
        forall|i: int|
            0 <= i < events.len() ==> #[trigger] events[i] == (entities[i], Damage { amount: EMITTED_DAMAGE }),
{
    let mut events: Vec<(u64, Damage)> = Vec::new();
    for i in 0..entities.len()
        invariant
            events.len() == i,
            forall|j: int|
                0 <= j < i ==> #[trigger] events[j] == (entities[j], Damage { amount: EMITTED_DAMAGE }),
    {
        events.push((entities[i], Damage { amount: EMITTED_DAMAGE }));
    }
    events
}

/// Whether `recv_dmg` can deal `events` without a health going below zero
/// (where it cannot, dealing them would panic).
pub fn first_damage_fits(creatures: &Vec<Creature>, events: &Vec<(u64, Damage)>) -> (b: bool)
    ensures
        b == (first_mortal(creatures@) matches Some(i) ==> damage_to(events@, creatures[i].entity)
            <= creatures[i].health.amount),
{
    let mut i: usize = 0;
    while i < creatures.len() && creatures[i].immortal
        invariant
            0 <= i <= creatures.len(),
            forall|j: int| 0 <= j < i ==> #[trigger] creatures[j].immortal,
        decreases creatures.len() - i,
    {
        i += 1;
    }
    proof {
        lemma_first_mortal(creatures@, i as int);
    }
    if i == creatures.len() {
        return true;
    }
    let e = creatures[i].entity;
    let amount = creatures[i].health.amount as u64;
    let mut total: u64 = 0;
    let mut k: usize = 0;
    while k < events.len()
        invariant
            0 <= k <= events.len(),
            total == damage_to(events@.take(k as int), e),
            total <= amount,
            amount <= u16::MAX,
            i < creatures.len(),
            first_mortal(creatures@) == Some(i as int),
            e == creatures[i as int].entity,
            amount == creatures[i as int].health.amount,
        decreases events.len() - k,
    {
        proof {
            assert(events@.take(k + 1).drop_last() =~= events@.take(k as int));
            lemma_damage_to_prefix(events@, k + 1, e);
            lemma_damage_to_prefix(events@, k as int, e);
        }
        if events[k].0 == e {
            total = total + events[k].1.amount as u64;
            if total > amount {
                proof {
                    lemma_damage_to_prefix(events@, k + 1, e);
                }
                return false;
            }
        }
        k += 1;
    }
    assert(events@.take(events.len() as int) =~= events@);
    true
}

/// A greeting costs five hit points; each emitted event carries four.
pub proof fn lemma_damage_amounts()
    ensures
        GREETING_DAMAGE == 5,
        EMITTED_DAMAGE == 4,
{
}

/// The damage to an entity adds up over events: none from no events, an
/// event's amount from an event for it, nothing from an event for another
/// entity, and the two parts' sum from two runs of events.
pub proof fn lemma_damage_adds_up(a: Seq<(u64, Damage)>, b: Seq<(u64, Damage)>, e: u64, d: Damage, other: u64)
    requires
        other != e,
    ensures
        damage_to(Seq::empty(), e) == 0,
        damage_to(seq![(e, d)], e) == d.amount,
        damage_to(seq![(other, d)], e) == 0,
        damage_to(a + b, e) == damage_to(a, e) + damage_to(b, e),
    decreases b.len(),
{
    assert(seq![(e, d)].drop_last() =~= Seq::<(u64, Damage)>::empty());
    assert(seq![(other, d)].drop_last() =~= Seq::<(u64, Damage)>::empty());
    if b.len() == 0 {
        assert(a + b =~= a);
    } else {
        lemma_damage_adds_up(a, b.drop_last(), e, d, other);
        assert((a + b).drop_last() =~= a + b.drop_last());
        assert((a + b).last() == b.last());
    }
}

/// The first creature that is not immortal is the one with no mortal before
/// it; where every creature is immortal there is none.
pub proof fn lemma_first_mortal_is_first(cs: Seq<Creature>, i: int)
    requires
        0 <= i <= cs.len(),
        forall|j: int| 0 <= j < i ==> #[trigger] cs[j].immortal,
    ensures
        i < cs.len() && !cs[i].immortal ==> first_mortal(cs) == Some(i),
        i == cs.len() ==> first_mortal(cs) is None,
{
    lemma_first_mortal(cs, i);
}

} // verus!
