use game_plugin::combat::components::{Bullet, Damage, Health, Loot, Scores};

#[test]
fn new_health_is_full() {
    let health = Health::new(7);
    assert_eq!(health.current, 7);
    assert_eq!(health.max, 7);
    assert!(!health.is_dead());
}

#[test]
fn health_of_zero_is_dead_from_the_start() {
    let health = Health::new(0);
    assert_eq!(health, Health { current: 0, max: 0 });
    assert!(health.is_dead());
}

#[test]
fn dead_means_nothing_left() {
    assert!(Health { current: 0, max: 5 }.is_dead());
    assert!(!Health { current: 1, max: 5 }.is_dead());
    assert!(!Health { current: u32::MAX, max: u32::MAX }.is_dead());
}

#[test]
fn counters_start_at_zero() {
    assert_eq!(Scores::default(), Scores { amount: 0 });
    assert_eq!(Loot::default(), Loot { score: 0 });
    assert_eq!(Damage::default(), Damage(0));
}

#[test]
fn components_are_plain_values() {
    let bullet = Bullet { damage: 3 };
    let copy = bullet;
    assert_eq!(bullet, copy);
    assert_ne!(Loot { score: 1 }, Loot { score: 2 });
}
