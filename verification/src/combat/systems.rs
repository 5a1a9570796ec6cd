//! The systems of combat, one step of the pipeline each: collisions become
//! contacts, contacts become damage, the dead are removed and paid for, and
//! pulls of the trigger become bullets as far as the cooldowns allow.

use crate::combat::components::{Bullet, Cooldown, Damage, Health, Loot, Scores};
use crate::combat::events::{
    Collision, ContactEvent, RewardEvent, ShootEvent, SpawnBulletEvent,
};
use crate::timer::{duration_nanos, tick};
use crate::{Entity, Owner};
use std::collections::{HashMap, HashSet};
use std::time::Duration;
use vstd::prelude::*;

verus! {

/// Whether `bullet_entity` hits `health_entity` when the two touch: the
/// first has health and the second is a bullet. Whose bullet it is does not
/// matter: a shooter is kept out of harm by the collision layers that its
/// bullets take over, so that the two never touch.
pub open spec fn bullet_hits(
    health_entity: Entity,
    bullet_entity: Entity,
    bullets: Map<Entity, Bullet>,
    healths: Map<Entity, Health>,
) -> bool {
    healths.contains_key(health_entity) && bullets.contains_key(bullet_entity)
}

/// The contact of `health_entity` with `bullet_entity`, if the bullet hits.
pub open spec fn contact_of(
    health_entity: Entity,
    bullet_entity: Entity,
    bullets: Map<Entity, Bullet>,
    healths: Map<Entity, Health>,
) -> Seq<ContactEvent> {
    if bullet_hits(health_entity, bullet_entity, bullets, healths) {
        seq![ContactEvent::HealthBullet(health_entity, bullet_entity)]
    } else {
        seq![]
    }
}

/// The contacts that one collision gives rise to. Only the start of an
/// overlap counts, and either body may be the bullet: the first body is
/// tried as the unit first, and where each is unit and bullet at once both
/// contacts are made, in that order.
pub open spec fn contacts_of_collision(
    collision: Collision,
    bullets: Map<Entity, Bullet>,
    healths: Map<Entity, Health>,
) -> Seq<ContactEvent> {
    match collision {
        Collision::Started(entity1, entity2) => contact_of(entity1, entity2, bullets, healths)
            + contact_of(entity2, entity1, bullets, healths),
        Collision::Stopped(_, _) => seq![],
    }
}

/// The contacts that `collisions` give rise to, in their order.
pub open spec fn contacts_of(
    collisions: Seq<Collision>,
    bullets: Map<Entity, Bullet>,
    healths: Map<Entity, Health>,
) -> Seq<ContactEvent>
    decreases collisions.len(),
{
    if collisions.len() == 0 {
        seq![]
    } else {
        contacts_of(collisions.drop_last(), bullets, healths) + contacts_of_collision(
            collisions.last(),
            bullets,
            healths,
        )
    }
}

/// Every contact that collisions give rise to names a unit with health and
/// a bullet.
pub proof fn lemma_contacts_are_hits(
    collisions: Seq<Collision>,
    bullets: Map<Entity, Bullet>,
    healths: Map<Entity, Health>,
)
    ensures
        forall|i: int|
            0 <= i < contacts_of(collisions, bullets, healths).len() ==> match (
            #[trigger] contacts_of(collisions, bullets, healths)[i]) {
                ContactEvent::HealthBullet(health_entity, bullet_entity) => bullet_hits(
                    health_entity,
                    bullet_entity,
                    bullets,
                    healths,
                ),
            },
    decreases collisions.len(),
{
    if collisions.len() > 0 {
        lemma_contacts_are_hits(collisions.drop_last(), bullets, healths);
        let all = contacts_of(collisions, bullets, healths);
        let earlier = contacts_of(collisions.drop_last(), bullets, healths);
        let latest = contacts_of_collision(collisions.last(), bullets, healths);
        assert forall|i: int| 0 <= i < all.len() implies match (#[trigger] all[i]) {
            ContactEvent::HealthBullet(health_entity, bullet_entity) => bullet_hits(
                health_entity,
                bullet_entity,
                bullets,
                healths,
            ),
        } by {
            if i < earlier.len() {
                assert(all[i] == earlier[i]);
            } else {
                assert(all[i] == latest[i - earlier.len()]);
            }
        }
    }
}

/// A started collision makes the same contacts whichever body comes first
/// in the pair, but for their order.
pub proof fn lemma_contacts_do_not_favour_a_side(
    entity1: Entity,
    entity2: Entity,
    bullets: Map<Entity, Bullet>,
    healths: Map<Entity, Health>,
)
    ensures
        contacts_of_collision(Collision::Started(entity1, entity2), bullets, healths).to_multiset()
            == contacts_of_collision(
            Collision::Started(entity2, entity1),
            bullets,
            healths,
        ).to_multiset(),
{
    let one = contact_of(entity1, entity2, bullets, healths);
    let other = contact_of(entity2, entity1, bullets, healths);
    vstd::seq_lib::lemma_multiset_commutative(one, other);
    vstd::seq_lib::lemma_multiset_commutative(other, one);
    assert(one.to_multiset().add(other.to_multiset()) == other.to_multiset().add(
        one.to_multiset(),
    ));
}

/// Collisions taken in two lots give the contacts of the first lot and then
/// those of the second.
pub proof fn lemma_contacts_of_lots(
    first: Seq<Collision>,
    second: Seq<Collision>,
    bullets: Map<Entity, Bullet>,
    healths: Map<Entity, Health>,
)
    ensures
        contacts_of(first + second, bullets, healths) == contacts_of(first, bullets, healths)
            + contacts_of(second, bullets, healths),
    decreases second.len(),
{
    if second.len() > 0 {
        assert((first + second).drop_last() == first + second.drop_last());
        lemma_contacts_of_lots(first, second.drop_last(), bullets, healths);
    }
}

/// Sends the contact of `health_entity` with `bullet_entity`, if the bullet
/// hits.
fn check_bullet(
    health_entity: Entity,
    bullet_entity: Entity,
    bullets: &HashMap<Entity, Bullet>,
    healths: &HashMap<Entity, Health>,
    contact_events: &mut Vec<ContactEvent>,
)
    ensures
        final(contact_events)@ == old(contact_events)@ + contact_of(
            health_entity,
            bullet_entity,
            bullets@,
            healths@,
        ),
{
    if healths.contains_key(&health_entity) && bullets.contains_key(&bullet_entity) {
        contact_events.push(ContactEvent::HealthBullet(health_entity, bullet_entity));
    }
}

/// Turns the collisions of the physics engine into combat contacts.
///
/// For every overlap that started, in the order of `collision_events`, a
/// contact is sent to `contact_events` for each way round in which one body
/// has health and the other is a bullet.
pub fn handle_intersections(
    collision_events: &Vec<Collision>,
    bullets: &HashMap<Entity, Bullet>,
    healths: &HashMap<Entity, Health>,
    contact_events: &mut Vec<ContactEvent>,
)
    ensures
        final(contact_events)@ == old(contact_events)@ + contacts_of(
            collision_events@,
            bullets@,
            healths@,
        ),
{
    let mut i: usize = 0;
    while i < collision_events.len()
        invariant
            i <= collision_events@.len(),
            contact_events@ == old(contact_events)@ + contacts_of(
                collision_events@.take(i as int),
                bullets@,
                healths@,
            ),
        decreases collision_events@.len() - i,
    {
        proof {
            assert(collision_events@.take(i + 1).drop_last() == collision_events@.take(i as int));
        }
        match collision_events[i] {
            Collision::Started(entity1, entity2) => {
                check_bullet(entity1, entity2, bullets, healths, contact_events);
                check_bullet(entity2, entity1, bullets, healths, contact_events);
            },
            Collision::Stopped(_, _) => {},
        }
        i += 1;
    }
    proof {
        assert(collision_events@.take(i as int) == collision_events@);
    }
}

/// The healths after one contact: where the unit has health and the bullet
/// is a bullet, the bullet's damage is taken off the unit's health.
pub open spec fn hit(
    healths: Map<Entity, Health>,
    bullets: Map<Entity, Bullet>,
    contact: ContactEvent,
) -> Map<Entity, Health> {
    match contact {
        ContactEvent::HealthBullet(health_entity, bullet_entity) => {
            if healths.contains_key(health_entity) && bullets.contains_key(bullet_entity) {
                healths.insert(
                    health_entity,
                    healths[health_entity].damaged(bullets[bullet_entity].damage),
                )
            } else {
                healths
            }
        },
    }
}

/// The healths after all of `contacts`, taken in their order.
pub open spec fn hits(
    healths: Map<Entity, Health>,
    bullets: Map<Entity, Bullet>,
    contacts: Seq<ContactEvent>,
) -> Map<Entity, Health>
    decreases contacts.len(),
{
    if contacts.len() == 0 {
        healths
    } else {
        hit(hits(healths, bullets, contacts.drop_last()), bullets, contacts.last())
    }
}

/// The bullet of a contact.
pub open spec fn bullet_of(contact: ContactEvent) -> Entity {
    match contact {
        ContactEvent::HealthBullet(_, bullet_entity) => bullet_entity,
    }
}

/// Hits only ever wear health down: they touch no unit but those that
/// had health before, leave each maximum alone, never raise what is left,
/// and keep a well-formed health well formed.
pub proof fn lemma_hits_wear_down(
    healths: Map<Entity, Health>,
    bullets: Map<Entity, Bullet>,
    contacts: Seq<ContactEvent>,
)
    ensures
        hits(healths, bullets, contacts).dom() == healths.dom(),
        forall|entity: Entity| #[trigger]
            healths.contains_key(entity) ==> {
                let before = healths[entity];
                let after = hits(healths, bullets, contacts)[entity];
                &&& after.max == before.max
                &&& after.current <= before.current
                &&& before.wf() ==> after.wf()
            },
    decreases contacts.len(),
{
    if contacts.len() > 0 {
        lemma_hits_wear_down(healths, bullets, contacts.drop_last());
    }
}

/// Contacts taken in two lots wear health down as all of them do when
/// taken at once.
pub proof fn lemma_hits_in_lots(
    healths: Map<Entity, Health>,
    bullets: Map<Entity, Bullet>,
    first: Seq<ContactEvent>,
    second: Seq<ContactEvent>,
)
    ensures
        hits(healths, bullets, first + second) == hits(
            hits(healths, bullets, first),
            bullets,
            second,
        ),
    decreases second.len(),
{
    if second.len() > 0 {
        assert((first + second).drop_last() == first + second.drop_last());
        lemma_hits_in_lots(healths, bullets, first, second.drop_last());
    }
}

/// A contact that names a unit without health, or a bullet that is none,
/// changes no health.
pub proof fn lemma_stray_contact_hurts_nobody(
    healths: Map<Entity, Health>,
    bullets: Map<Entity, Bullet>,
    health_entity: Entity,
    bullet_entity: Entity,
)
    requires
        !healths.contains_key(health_entity) || !bullets.contains_key(bullet_entity),
    ensures
        hit(healths, bullets, ContactEvent::HealthBullet(health_entity, bullet_entity))
            == healths,
{
}

/// Resolves the contacts of this frame.
///
/// In the order of `contact_events`, each bullet's damage is taken off the
/// health of the unit it hit, down to zero at most. A contact whose unit has
/// no health, or whose bullet is no bullet, changes nothing. Returned are
/// the bullets to despawn: the bullet of every contact, in order, whether
/// or not it did damage.
pub fn handle_contacts(
    contact_events: &Vec<ContactEvent>,
    healths: &mut HashMap<Entity, Health>,
    bullets: &HashMap<Entity, Bullet>,
) -> (despawned: Vec<Entity>)
    ensures
        final(healths)@ == hits(old(healths)@, bullets@, contact_events@),
        despawned@ == contact_events@.map_values(|contact: ContactEvent| bullet_of(contact)),
{
    let mut despawned: Vec<Entity> = Vec::new();
    let mut i: usize = 0;
    while i < contact_events.len()
        invariant
            i <= contact_events@.len(),
            healths@ == hits(old(healths)@, bullets@, contact_events@.take(i as int)),
            despawned@ == contact_events@.take(i as int).map_values(
                |contact: ContactEvent| bullet_of(contact),
            ),
        decreases contact_events@.len() - i,
    {
        proof {
            assert(contact_events@.take(i + 1).drop_last() == contact_events@.take(i as int));
        }
        match contact_events[i] {
            ContactEvent::HealthBullet(health_entity, bullet_entity) => {
                let health: Option<Health> = match healths.get(&health_entity) {
                    Some(health) => Some(*health),
                    None => None,
                };
                match (health, bullets.get(&bullet_entity)) {
                    (Some(health), Some(bullet)) => {
                        healths.insert(
                            health_entity,
                            Health {
                                current: health.current.saturating_sub(bullet.damage),
                                max: health.max,
                            },
                        );
                    },
                    _ => {},
                }
                despawned.push(bullet_entity);
            },
        }
        proof {
            assert(despawned@ == contact_events@.take(i + 1).map_values(
                |contact: ContactEvent| bullet_of(contact),
            ));
        }
        i += 1;
    }
    proof {
        assert(contact_events@.take(i as int) == contact_events@);
    }
    despawned
}

/// Whether a row of changed healths is a dead unit.
pub open spec fn is_dead_row(row: (Entity, Health, Option<Loot>)) -> bool {
    row.1.current == 0
}

/// Whether a row of changed healths is a dead unit with loot.
pub open spec fn is_rewarding_row(row: (Entity, Health, Option<Loot>)) -> bool {
    row.1.current == 0 && row.2 is Some
}

/// The dead units among `rows`, in order.
pub open spec fn dead_of(rows: Seq<(Entity, Health, Option<Loot>)>) -> Seq<Entity> {
    rows.filter(|row: (Entity, Health, Option<Loot>)| is_dead_row(row)).map_values(
        |row: (Entity, Health, Option<Loot>)| row.0,
    )
}

/// The rewards for the dead units among `rows` that carry loot, in order.
pub open spec fn rewards_of(rows: Seq<(Entity, Health, Option<Loot>)>) -> Seq<RewardEvent> {
    rows.filter(|row: (Entity, Health, Option<Loot>)| is_rewarding_row(row)).map_values(
        |row: (Entity, Health, Option<Loot>)| RewardEvent { score: row.2.unwrap().score },
    )
}

/// Whether `entity` is a dead unit among `rows`.
pub open spec fn is_dead_among(rows: Seq<(Entity, Health, Option<Loot>)>, entity: Entity) -> bool {
    exists|j: int| 0 <= j < rows.len() && (#[trigger] rows[j]).0 == entity && is_dead_row(rows[j])
}

/// Only the dead are despawned, and no more rewards are paid than units
/// die.
pub proof fn lemma_only_the_dead_pay(rows: Seq<(Entity, Health, Option<Loot>)>)
    ensures
        forall|i: int|
            0 <= i < dead_of(rows).len() ==> is_dead_among(rows, #[trigger] dead_of(rows)[i]),
        rewards_of(rows).len() <= dead_of(rows).len() <= rows.len(),
    decreases rows.len(),
{
    reveal(Seq::filter);
    if rows.len() > 0 {
        let front = rows.drop_last();
        lemma_only_the_dead_pay(front);
        assert forall|i: int| 0 <= i < dead_of(rows).len() implies is_dead_among(
            rows,
            #[trigger] dead_of(rows)[i],
        ) by {
            if i < dead_of(front).len() {
                assert(dead_of(rows)[i] == dead_of(front)[i]);
                let j = choose|j: int|
                    0 <= j < front.len() && (#[trigger] front[j]).0 == dead_of(front)[i]
                        && is_dead_row(front[j]);
                assert(rows[j] == front[j]);
            } else {
                assert(rows[rows.len() - 1] == rows.last());
                assert(dead_of(rows)[i] == rows.last().0);
            }
        }
    }
}

/// Removes the dead and pays for them.
///
/// `healths` holds the units whose health changed, each with its loot if it
/// has any. For every dead one that has loot a reward of the loot's score is
/// sent to `reward_events`. Returned are the units to despawn with all that
/// hangs on them: every dead one, in order.
pub fn despawn_dead(
    healths: &Vec<(Entity, Health, Option<Loot>)>,
    reward_events: &mut Vec<RewardEvent>,
) -> (despawned: Vec<Entity>)
    ensures
        final(reward_events)@ == old(reward_events)@ + rewards_of(healths@),
        despawned@ == dead_of(healths@),
{
    let mut despawned: Vec<Entity> = Vec::new();
    let mut i: usize = 0;
    while i < healths.len()
        invariant
            i <= healths@.len(),
            reward_events@ == old(reward_events)@ + rewards_of(healths@.take(i as int)),
            despawned@ == dead_of(healths@.take(i as int)),
        decreases healths@.len() - i,
    {
        proof {
            reveal(Seq::filter);
            assert(healths@.take(i + 1).drop_last() == healths@.take(i as int));
        }
        let (entity, health, loot) = healths[i];
        if health.is_dead() {
            if let Some(loot) = loot {
                reward_events.push(RewardEvent { score: loot.score });
            }
            despawned.push(entity);
        }
        i += 1;
    }
    proof {
        assert(healths@.take(i as int) == healths@);
    }
    despawned
}

/// Whether every cooldown can take a tick by `delta`.
pub open spec fn cooldowns_can_tick(cooldowns: Seq<Cooldown>, delta: Duration) -> bool {
    forall|i: int|
        0 <= i < cooldowns.len() ==> (#[trigger] cooldowns[i])@.can_tick(duration_nanos(delta))
}

/// Lets `delta` pass for every cooldown.
pub fn update_cooldowns(delta: Duration, cooldowns: &mut Vec<Cooldown>)
    requires
        cooldowns_can_tick(old(cooldowns)@, delta),
    ensures
        final(cooldowns)@.len() == old(cooldowns)@.len(),
        forall|i: int|
            0 <= i < old(cooldowns)@.len() ==> (#[trigger] final(cooldowns)@[i])@ == old(
                cooldowns,
            )@[i]@.ticked(duration_nanos(delta)),
{
    let mut i: usize = 0;
    while i < cooldowns.len()
        invariant
            i <= cooldowns@.len(),
            cooldowns@.len() == old(cooldowns)@.len(),
            forall|j: int|
                0 <= j < i ==> (#[trigger] cooldowns@[j])@ == old(cooldowns)@[j]@.ticked(
                    duration_nanos(delta),
                ),
            forall|j: int| i <= j < cooldowns@.len() ==> cooldowns@[j] == old(cooldowns)@[j],
            cooldowns_can_tick(old(cooldowns)@, delta),
        decreases cooldowns@.len() - i,
    {
        let cooldown = &mut cooldowns[i];
        tick(&mut cooldown.0, delta);
        i += 1;
    }
}

/// A slot that wants a weapon: the first of `children` that is a free
/// slot, if there is one.
pub open spec fn first_free(children: Seq<Entity>, free_slots: Set<Entity>) -> Option<Entity>
    decreases children.len(),
{
    if children.len() == 0 {
        None
    } else {
        match first_free(children.drop_last(), free_slots) {
            Some(slot) => Some(slot),
            None => if free_slots.contains(children.last()) {
                Some(children.last())
            } else {
                None
            },
        }
    }
}

/// `first_free` is the child at the least index that is a free slot, and
/// there is none exactly if no child is a free slot.
pub proof fn lemma_first_free_is_least(children: Seq<Entity>, free_slots: Set<Entity>)
    ensures
        match first_free(children, free_slots) {
            Some(slot) => exists|i: int|
                {
                    &&& 0 <= i < children.len()
                    &&& #[trigger] children[i] == slot
                    &&& free_slots.contains(slot)
                    &&& forall|j: int| 0 <= j < i ==> !free_slots.contains(#[trigger] children[j])
                },
            None => forall|j: int|
                0 <= j < children.len() ==> !free_slots.contains(#[trigger] children[j]),
        },
    decreases children.len(),
{
    if children.len() > 0 {
        let front = children.drop_last();
        lemma_first_free_is_least(front, free_slots);
        match first_free(front, free_slots) {
            Some(slot) => {
                let i = choose|i: int|
                    {
                        &&& 0 <= i < front.len()
                        &&& #[trigger] front[i] == slot
                        &&& free_slots.contains(slot)
                        &&& forall|j: int| 0 <= j < i ==> !free_slots.contains(#[trigger] front[j])
                    };
                assert(children[i] == slot);
                assert forall|j: int| 0 <= j < i implies !free_slots.contains(
                    #[trigger] children[j],
                ) by {
                    assert(children[j] == front[j]);
                }
            },
            None => {
                assert forall|j: int| 0 <= j < children.len() - 1 implies !free_slots.contains(
                    #[trigger] children[j],
                ) by {
                    assert(children[j] == front[j]);
                }
                if free_slots.contains(children.last()) {
                    assert(children[children.len() - 1] == children.last());
                }
            },
        }
    }
}

/// The slots to equip, one for each player that has a free slot.
pub open spec fn slots_to_equip(players: Seq<Vec<Entity>>, free_slots: Set<Entity>) -> Seq<Entity>
    decreases players.len(),
{
    if players.len() == 0 {
        seq![]
    } else {
        let rest = slots_to_equip(players.drop_last(), free_slots);
        match first_free(players.last()@, free_slots) {
            Some(slot) => rest.push(slot),
            None => rest,
        }
    }
}

/// Finds the first of `children` that is a free slot.
fn find_free_slot(children: &Vec<Entity>, free_slots: &HashSet<Entity>) -> (r: Option<Entity>)
    ensures
        r == first_free(children@, free_slots@),
{
    let mut i: usize = 0;
    while i < children.len()
        invariant
            i <= children@.len(),
            first_free(children@.take(i as int), free_slots@) is None,
        decreases children@.len() - i,
    {
        proof {
            assert(children@.take(i + 1).drop_last() == children@.take(i as int));
        }
        if free_slots.contains(&children[i]) {
            proof {
                lemma_first_free_extends(children@, free_slots@, i + 1);
            }
            return Some(children[i]);
        }
        i += 1;
    }
    proof {
        assert(children@.take(i as int) == children@);
    }
    None
}

/// Once a free slot has been found among the first `n` children, looking
/// further finds the same one.
proof fn lemma_first_free_extends(children: Seq<Entity>, free_slots: Set<Entity>, n: int)
    requires
        0 <= n <= children.len(),
        first_free(children.take(n), free_slots) is Some,
    ensures
        first_free(children, free_slots) == first_free(children.take(n), free_slots),
    decreases children.len() - n,
{
    if n < children.len() {
        assert(children.take(n + 1).drop_last() == children.take(n));
        lemma_first_free_extends(children, free_slots, n + 1);
    } else {
        assert(children.take(n) == children);
    }
}

/// On the press of the test key, picks a slot for a new weapon on every
/// player that has room for one.
///
/// `players` holds the children of each player, in order, and `free_slots`
/// the weapon slots that hold no weapon. Returned is, for each player with
/// a free slot among its children, the first such child. Without the key
/// press nothing is returned.
pub fn test_equip_weapon(
    pressed: bool,
    players: &Vec<Vec<Entity>>,
    free_slots: &HashSet<Entity>,
) -> (slots: Vec<Entity>)
    ensures
        slots@ == if pressed {
            slots_to_equip(players@, free_slots@)
        } else {
            seq![]
        },
{
    let mut slots: Vec<Entity> = Vec::new();
    if pressed {
        let mut i: usize = 0;
        while i < players.len()
            invariant
                i <= players@.len(),
                slots@ == slots_to_equip(players@.take(i as int), free_slots@),
            decreases players@.len() - i,
        {
            proof {
                assert(players@.take(i + 1).drop_last() == players@.take(i as int));
            }
            if let Some(slot_entity) = find_free_slot(&players[i], free_slots) {
                slots.push(slot_entity);
            }
            i += 1;
        }
        proof {
            assert(players@.take(i as int) == players@);
        }
    }
    slots
}

/// Whether `weapon` is a weapon that has cooled down.
pub open spec fn is_ready(weapons: Map<Entity, Cooldown>, weapon: Entity) -> bool {
    weapons.contains_key(weapon) && weapons[weapon]@.finished
}

/// The shots of one pull of the trigger: one for each child of the shooter
/// that is a weapon and has cooled down, in the order of the children.
pub open spec fn shots_of(
    shooter: Entity,
    children: Seq<Entity>,
    weapons: Map<Entity, Cooldown>,
) -> Seq<SpawnBulletEvent> {
    children.filter(|child: Entity| is_ready(weapons, child)).map_values(
        |child: Entity| SpawnBulletEvent { weapon: child, shooter },
    )
}

/// The shots of all of `shoot_events`, in their order. A shooter without
/// children fires nothing.
pub open spec fn shots(
    shoot_events: Seq<ShootEvent>,
    children: Map<Entity, Vec<Entity>>,
    weapons: Map<Entity, Cooldown>,
) -> Seq<SpawnBulletEvent>
    decreases shoot_events.len(),
{
    if shoot_events.len() == 0 {
        seq![]
    } else {
        let shooter = shoot_events.last().shooter;
        shots(shoot_events.drop_last(), children, weapons) + if children.contains_key(shooter) {
            shots_of(shooter, children[shooter]@, weapons)
        } else {
            seq![]
        }
    }
}

/// Every shot of a pull of the trigger is the shooter's own, and comes from
/// a child of the shooter that is a weapon and has cooled down.
pub proof fn lemma_shots_are_ready(
    shooter: Entity,
    children: Seq<Entity>,
    weapons: Map<Entity, Cooldown>,
)
    ensures
        forall|i: int|
            0 <= i < shots_of(shooter, children, weapons).len() ==> {
                let shot = #[trigger] shots_of(shooter, children, weapons)[i];
                &&& shot.shooter == shooter
                &&& children.contains(shot.weapon)
                &&& is_ready(weapons, shot.weapon)
            },
{
    let ready = |child: Entity| is_ready(weapons, child);
    assert forall|i: int| 0 <= i < shots_of(shooter, children, weapons).len() implies {
        let shot = #[trigger] shots_of(shooter, children, weapons)[i];
        &&& shot.shooter == shooter
        &&& children.contains(shot.weapon)
        &&& is_ready(weapons, shot.weapon)
    } by {
        children.lemma_filter_pred(ready, i);
        children.lemma_filter_contains_rev(ready, children.filter(ready)[i]);
    }
}

/// Turns pulls of the trigger into shots.
///
/// `children` holds the children of each unit that has any, and `weapons`
/// the cooldown of each weapon. For every shoot event, in order, each child
/// of the shooter that is a weapon whose cooldown has finished sends a
/// spawn-bullet event to `spawn_bullet_events`.
pub fn handle_shoot_events(
    shoot_events: &Vec<ShootEvent>,
    children: &HashMap<Entity, Vec<Entity>>,
    weapons: &HashMap<Entity, Cooldown>,
    spawn_bullet_events: &mut Vec<SpawnBulletEvent>,
)
    ensures
        final(spawn_bullet_events)@ == old(spawn_bullet_events)@ + shots(
            shoot_events@,
            children@,
            weapons@,
        ),
{
    let mut i: usize = 0;
    while i < shoot_events.len()
        invariant
            i <= shoot_events@.len(),
            spawn_bullet_events@ == old(spawn_bullet_events)@ + shots(
                shoot_events@.take(i as int),
                children@,
                weapons@,
            ),
        decreases shoot_events@.len() - i,
    {
        proof {
            assert(shoot_events@.take(i + 1).drop_last() == shoot_events@.take(i as int));
        }
        let shooter = shoot_events[i].shooter;
        if let Some(kids) = children.get(&shooter) {
            let ghost sent = spawn_bullet_events@;
            let mut j: usize = 0;
            while j < kids.len()
                invariant
                    j <= kids@.len(),
                    spawn_bullet_events@ == sent + shots_of(
                        shooter,
                        kids@.take(j as int),
                        weapons@,
                    ),
                decreases kids@.len() - j,
            {
                proof {
                    reveal(Seq::filter);
                    assert(kids@.take(j + 1).drop_last() == kids@.take(j as int));
                }
                let child = kids[j];
                let ready = match weapons.get(&child) {
                    Some(cooldown) => cooldown.0.finished(),
                    None => false,
                };
                if ready {
                    spawn_bullet_events.push(SpawnBulletEvent { weapon: child, shooter });
                }
                proof {
                    assert(spawn_bullet_events@ == sent + shots_of(
                        shooter,
                        kids@.take(j + 1),
                        weapons@,
                    ));
                }
                j += 1;
            }
            proof {
                assert(kids@.take(j as int) == kids@);
            }
        }
        i += 1;
    }
    proof {
        assert(shoot_events@.take(i as int) == shoot_events@);
    }
}

/// A bullet to put into the world: the weapon it leaves, what it deals and
/// whose it is.
#[derive(Debug, Clone, Copy, PartialEq, Eq, Structural)]
pub struct Shot {
    pub weapon: Entity,
    pub bullet: Bullet,
    pub owner: Owner,
}

/// The damage of a weapon's bullets: what its damage component says, and
/// nothing without one.
pub open spec fn damage_of(damages: Map<Entity, Damage>, weapon: Entity) -> u32 {
    if damages.contains_key(weapon) {
        damages[weapon].0
    } else {
        0
    }
}

/// Whether one of `events` fires `weapon`.
pub open spec fn fires(events: Seq<SpawnBulletEvent>, weapon: Entity) -> bool {
    exists|i: int| 0 <= i < events.len() && (#[trigger] events[i]).weapon == weapon
}

/// The bullets that `events` put into the world: one for each event whose
/// weapon is a weapon, in order, owned by the event's shooter.
pub open spec fn bullets_of(
    events: Seq<SpawnBulletEvent>,
    weapons: Set<Entity>,
    damages: Map<Entity, Damage>,
) -> Seq<Shot> {
    events.filter(|event: SpawnBulletEvent| weapons.contains(event.weapon)).map_values(
        |event: SpawnBulletEvent|
            Shot {
                weapon: event.weapon,
                bullet: Bullet { damage: damage_of(damages, event.weapon) },
                owner: Owner { entity: event.shooter },
            },
    )
}

/// Fires the weapons.
///
/// For every spawn-bullet event whose weapon is in `weapons`, in order, the
/// weapon's cooldown starts over and a bullet is returned for the engine to
/// spawn at the weapon. It deals the weapon's damage, or none if the weapon
/// has no damage component, and is owned by the shooter. Weapons that did
/// not fire keep their cooldown.
pub fn spawn_bullets(
    events: &Vec<SpawnBulletEvent>,
    weapons: &mut HashMap<Entity, Cooldown>,
    damages: &HashMap<Entity, Damage>,
) -> (spawned: Vec<Shot>)
    ensures
        spawned@ == bullets_of(events@, old(weapons)@.dom(), damages@),
        final(weapons)@.dom() == old(weapons)@.dom(),
        forall|weapon: Entity| #[trigger]
            old(weapons)@.contains_key(weapon) ==> if fires(events@, weapon) {
                final(weapons)@[weapon]@ == old(weapons)@[weapon]@.reset()
            } else {
                final(weapons)@[weapon] == old(weapons)@[weapon]
            },
{
    let mut spawned: Vec<Shot> = Vec::new();
    let mut i: usize = 0;
    while i < events.len()
        invariant
            i <= events@.len(),
            spawned@ == bullets_of(events@.take(i as int), old(weapons)@.dom(), damages@),
            weapons@.dom() == old(weapons)@.dom(),
            forall|weapon: Entity| #[trigger]
                old(weapons)@.contains_key(weapon) ==> if fires(
                    events@.take(i as int),
                    weapon,
                ) {
                    weapons@[weapon]@ == old(weapons)@[weapon]@.reset()
                } else {
                    weapons@[weapon] == old(weapons)@[weapon]
                },
        decreases events@.len() - i,
    {
        let weapon_entity = events[i].weapon;
        let shooter = events[i].shooter;
        let ghost before = weapons@;
        proof {
            reveal(Seq::filter);
            assert(events@.take(i + 1).drop_last() == events@.take(i as int));
        }
        if let Some(mut cooldown) = weapons.remove(&weapon_entity) {
            cooldown.0.reset();
            weapons.insert(weapon_entity, cooldown);
            let damage = match damages.get(&weapon_entity) {
                Some(damage) => damage.0,
                None => 0,
            };
            spawned.push(
                Shot {
                    weapon: weapon_entity,
                    bullet: Bullet { damage },
                    owner: Owner { entity: shooter },
                },
            );
        }
        proof {
            assert(spawned@ == bullets_of(events@.take(i + 1), old(weapons)@.dom(), damages@));
            assert forall|weapon: Entity| #[trigger]
                old(weapons)@.contains_key(weapon) implies if fires(events@.take(i + 1), weapon) {
                weapons@[weapon]@ == old(weapons)@[weapon]@.reset()
            } else {
                weapons@[weapon] == old(weapons)@[weapon]
            } by {
                let earlier = events@.take(i as int);
                let now = events@.take(i + 1);
                if fires(earlier, weapon) {
                    let k = choose|k: int| 0 <= k < earlier.len() && (#[trigger] earlier[k]).weapon
                        == weapon;
                    assert(now[k].weapon == weapon);
                }
                if weapon == weapon_entity {
                    assert(now[i as int].weapon == weapon);
                } else if fires(now, weapon) {
                    let k = choose|k: int| 0 <= k < now.len() && (#[trigger] now[k]).weapon
                        == weapon;
                    assert(earlier[k].weapon == weapon);
                }
            }
        }
        i += 1;
    }
    proof {
        assert(events@.take(i as int) == events@);
    }
    spawned
}

/// The sum of the scores of `rewards`.
pub open spec fn total_score(rewards: Seq<RewardEvent>) -> nat
    decreases rewards.len(),
{
    if rewards.len() == 0 {
        0
    } else {
        total_score(rewards.drop_last()) + rewards.last().score as nat
    }
}

/// The rewards handed out so far never add up to more than all of them.
proof fn lemma_total_score_grows(rewards: Seq<RewardEvent>, n: int)
    requires
        0 <= n <= rewards.len(),
    ensures
        total_score(rewards.take(n)) <= total_score(rewards),
    decreases rewards.len() - n,
{
    if n < rewards.len() {
        assert(rewards.take(n + 1).drop_last() == rewards.take(n));
        lemma_total_score_grows(rewards, n + 1);
    } else {
        assert(rewards.take(n) == rewards);
    }
}

/// Pays the rewards out: every player gets the score of every reward.
///
/// The scores are 32-bit counters. That no player's counter runs over is
/// asked of the caller.
pub fn apply_score_reward(reward_events: &Vec<RewardEvent>, players: &mut Vec<Scores>)
    requires
        forall|p: int|
            0 <= p < old(players)@.len() ==> (#[trigger] old(players)@[p]).amount + total_score(
                reward_events@,
            ) <= u32::MAX,
    ensures
        final(players)@.len() == old(players)@.len(),
        forall|p: int|
            0 <= p < old(players)@.len() ==> (#[trigger] final(players)@[p]).amount == old(
                players,
            )@[p].amount + total_score(reward_events@),
{
    let mut i: usize = 0;
    while i < reward_events.len()
        invariant
            i <= reward_events@.len(),
            players@.len() == old(players)@.len(),
            forall|p: int|
                0 <= p < players@.len() ==> (#[trigger] players@[p]).amount == old(
                    players,
                )@[p].amount + total_score(reward_events@.take(i as int)),
            forall|p: int|
                0 <= p < old(players)@.len() ==> (#[trigger] old(players)@[p]).amount
                    + total_score(reward_events@) <= u32::MAX,
        decreases reward_events@.len() - i,
    {
        let score = reward_events[i].score;
        proof {
            assert(reward_events@.take(i + 1).drop_last() == reward_events@.take(i as int));
            lemma_total_score_grows(reward_events@, i + 1);
        }
        let mut p: usize = 0;
        while p < players.len()
            invariant
                p <= players@.len(),
                i < reward_events@.len(),
                score == reward_events@[i as int].score,
                players@.len() == old(players)@.len(),
                forall|q: int|
                    0 <= q < p ==> (#[trigger] players@[q]).amount == old(players)@[q].amount
                        + total_score(reward_events@.take(i + 1)),
                forall|q: int|
                    p <= q < players@.len() ==> (#[trigger] players@[q]).amount == old(
                        players,
                    )@[q].amount + total_score(reward_events@.take(i as int)),
                total_score(reward_events@.take(i + 1)) == total_score(
                    reward_events@.take(i as int),
                ) + score,
                total_score(reward_events@.take(i + 1)) <= total_score(reward_events@),
                forall|q: int|
                    0 <= q < old(players)@.len() ==> (#[trigger] old(players)@[q]).amount
                        + total_score(reward_events@) <= u32::MAX,
            decreases players@.len() - p,
        {
            let scores = &mut players[p];
            scores.amount += score;
            p += 1;
        }
        i += 1;
    }
    proof {
        assert(reward_events@.take(i as int) == reward_events@);
    }
}

} // verus!
