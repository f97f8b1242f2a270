use hent::health::{emit_dmg, first_damage_fits, heal, hello, recv_dmg, Creature, Damage, Health};

fn world() -> Vec<Creature> {
    vec![
        Creature { entity: 1, name: "Pashka".to_string(), health: Health { amount: 100 }, immortal: true },
        Creature { entity: 2, name: "Oleg".to_string(), health: Health { amount: 200 }, immortal: false },
        Creature { entity: 3, name: "Oscar".to_string(), health: Health { amount: 50 }, immortal: false },
    ]
}

fn amounts(w: &Vec<Creature>) -> Vec<u16> {
    w.iter().map(|c| c.health.amount).collect()
}

#[test]
fn greeting_costs_five() {
    let mut w = world();
    hello(&mut w);
    assert_eq!(amounts(&w), vec![95, 195, 45]);
    assert_eq!(w[1].name, "Oleg");
}

#[test]
fn healing_adds_one() {
    let mut w = world();
    heal(&mut w);
    assert_eq!(amounts(&w), vec![101, 201, 51]);
}

#[test]
fn emitted_damage_is_four_for_each_entity() {
    let ev = emit_dmg(&vec![1, 2, 3]);
    assert_eq!(ev, vec![(1, Damage { amount: 4 }), (2, Damage { amount: 4 }), (3, Damage { amount: 4 })]);
    assert!(emit_dmg(&Vec::new()).is_empty());
}

#[test]
fn only_the_first_mortal_reads_the_damage() {
    let mut w = world();
    let ev = emit_dmg(&vec![1, 2, 3, 2]);
    recv_dmg(&mut w, &ev);
    // The immortal is passed by, the first mortal reads every event and takes
    // those meant for it; the events are used up before the next creature.
    assert_eq!(amounts(&w), vec![100, 192, 50]);
}

#[test]
fn all_immortal_world_is_unchanged() {
    let mut w = vec![Creature { entity: 9, name: "Kot".to_string(), health: Health { amount: 1 }, immortal: true }];
    recv_dmg(&mut w, &vec![(9, Damage { amount: 100 })]);
    assert_eq!(amounts(&w), vec![1]);
}

#[test]
fn exact_damage_leaves_zero() {
    let mut w = vec![Creature { entity: 4, name: "Ivan".to_string(), health: Health { amount: 8 }, immortal: false }];
    recv_dmg(&mut w, &vec![(4, Damage { amount: 4 }), (5, Damage { amount: 4 }), (4, Damage { amount: 4 })]);
    assert_eq!(amounts(&w), vec![0]);
}

#[test]
fn damage_beyond_health_is_detected() {
    let w = world();
    assert!(first_damage_fits(&w, &vec![(2, Damage { amount: 200 })]));
    assert!(!first_damage_fits(&w, &vec![(2, Damage { amount: 150 }), (2, Damage { amount: 51 })]));
    // Damage meant for a creature after the first mortal one is never read.
    assert!(first_damage_fits(&w, &vec![(3, Damage { amount: 60000 })]));
    assert!(first_damage_fits(&Vec::new(), &vec![(3, Damage { amount: 1 })]));
}
