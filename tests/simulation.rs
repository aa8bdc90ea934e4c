use hexsim::{
    ClockState, Component, ComponentKind, ComponentSet, EntityId, HPComponent, HexCoordinate,
    MoveComponent, PositionComponent, ShootComponent, SimError, Simulation, Tower,
};

fn hp_only() -> ComponentSet {
    ComponentSet { position: false, movement: false, goal: false, hp: true, attacker: false }
}

fn spawn_target(sim: &mut Simulation, x: i32, y: i32, hp: i32) -> EntityId {
    let id = sim.registry.create();
    sim.registry.attach(id, Component::Position(PositionComponent { x, y })).unwrap();
    sim.registry.attach(id, Component::Hp(HPComponent { currentHP: hp, maxHP: hp })).unwrap();
    id
}

fn spawn_shooter(sim: &mut Simulation, x: i32, y: i32, range: i32, damage: i32, ticks_to_fire: i32) -> EntityId {
    let id = sim.registry.create();
    sim.registry.attach(id, Component::Position(PositionComponent { x, y })).unwrap();
    let s = ShootComponent { range, damage, ticks_to_fire, ticks_passed: 0 };
    sim.registry.attach(id, Component::Shoot(s)).unwrap();
    id
}

fn spawn_walker(sim: &mut Simulation, x: i32, y: i32, ticks_to_move: i32, goal: HexCoordinate) -> EntityId {
    let id = sim.registry.create();
    sim.registry.attach(id, Component::Position(PositionComponent { x, y })).unwrap();
    sim.registry.attach(id, Component::Goal(goal)).unwrap();
    let m = Component::Move(MoveComponent { ticks_passed: 0, ticks_to_move });
    assert!(sim.registry.can_attach(id, &m));
    sim.registry.attach(id, m).unwrap();
    id
}

fn current_hp(sim: &Simulation, id: EntityId) -> Option<i32> {
    sim.registry.hp_of(id).map(|h| h.currentHP)
}

#[test]
fn single_attacker_kills_after_two_volleys() {
    let mut sim = Simulation::new();
    let a = spawn_shooter(&mut sim, 0, 0, 2, 5, 3);
    let b = spawn_target(&mut sim, 2, 0, 10);
    for _ in 0..2 {
        sim.advance().unwrap();
    }
    assert_eq!(current_hp(&sim, b), Some(10));
    sim.advance().unwrap();
    assert_eq!(current_hp(&sim, b), Some(5));
    assert_eq!(
        sim.registry.get(a, ComponentKind::Shoot),
        Some(Component::Shoot(ShootComponent { range: 2, damage: 5, ticks_to_fire: 3, ticks_passed: 0 }))
    );
    for _ in 0..3 {
        sim.advance().unwrap();
    }
    assert!(!sim.registry.contains(b));
    assert_eq!(current_hp(&sim, b), None);
    assert_eq!(sim.registry.iterate_with(hp_only()), Vec::<EntityId>::new());
    assert_eq!(sim.registry.len(), 1);
}

#[test]
fn simultaneous_lethal_hits_apply_in_identifier_order() {
    let mut sim = Simulation::new();
    let a1 = spawn_shooter(&mut sim, 0, 0, 3, 3, 1);
    let a2 = spawn_shooter(&mut sim, 1, 0, 3, 3, 1);
    assert_eq!(a1, EntityId(1));
    assert_eq!(a2, EntityId(2));
    let b = spawn_target(&mut sim, 2, 0, 4);
    sim.advance().unwrap();
    assert!(!sim.registry.contains(b));
    assert!(sim.registry.contains(a1));
    assert!(sim.registry.contains(a2));
}

#[test]
fn one_of_two_hits_leaves_one_hit_point() {
    let mut sim = Simulation::new();
    spawn_shooter(&mut sim, 0, 0, 3, 3, 1);
    spawn_shooter(&mut sim, 1, 0, 3, 3, 2);
    let b = spawn_target(&mut sim, 2, 0, 4);
    sim.advance().unwrap();
    assert_eq!(current_hp(&sim, b), Some(1));
    sim.advance().unwrap();
    assert!(!sim.registry.contains(b));
}

#[test]
fn walker_moves_once_per_tick_along_a_fixed_path() {
    let mut sim = Simulation::new();
    let goal = HexCoordinate::new(3, -1);
    let w = spawn_walker(&mut sim, 0, 0, 1, goal);
    let path = [(1, 0), (2, 0), (3, -1), (4, -1), (3, -1)];
    for (x, y) in path {
        sim.advance().unwrap();
        assert_eq!(sim.registry.position_of(w), Some(PositionComponent { x, y }));
        assert_eq!(
            sim.registry.get(w, ComponentKind::Move),
            Some(Component::Move(MoveComponent { ticks_passed: 0, ticks_to_move: 1 }))
        );
    }
}

#[test]
fn one_step_after_ticks_to_move_ticks() {
    let mut sim = Simulation::new();
    let w = spawn_walker(&mut sim, 0, 0, 3, HexCoordinate::new(5, 0));
    for k in 1..3 {
        sim.advance().unwrap();
        assert_eq!(sim.registry.position_of(w), Some(PositionComponent { x: 0, y: 0 }));
        assert_eq!(
            sim.registry.get(w, ComponentKind::Move),
            Some(Component::Move(MoveComponent { ticks_passed: k, ticks_to_move: 3 }))
        );
    }
    sim.advance().unwrap();
    assert_eq!(sim.registry.position_of(w), Some(PositionComponent { x: 1, y: 0 }));
    assert_eq!(
        sim.registry.get(w, ComponentKind::Move),
        Some(Component::Move(MoveComponent { ticks_passed: 0, ticks_to_move: 3 }))
    );
}

#[test]
fn walker_on_goal_steps_east_and_back() {
    let mut sim = Simulation::new();
    let w = spawn_walker(&mut sim, 4, 4, 1, HexCoordinate::new(4, 4));
    sim.advance().unwrap();
    assert_eq!(sim.registry.position_of(w), Some(PositionComponent { x: 5, y: 4 }));
    sim.advance().unwrap();
    assert_eq!(sim.registry.position_of(w), Some(PositionComponent { x: 4, y: 4 }));
}

#[test]
fn moving_needs_a_goal() {
    let mut sim = Simulation::new();
    let id = sim.registry.create();
    sim.registry.attach(id, Component::Position(PositionComponent { x: 0, y: 0 })).unwrap();
    let m = Component::Move(MoveComponent { ticks_passed: 0, ticks_to_move: 1 });
    assert!(!sim.registry.can_attach(id, &m));
    let edge = Component::Goal(HexCoordinate::new(i32::MAX, 0));
    sim.registry.attach(id, edge).unwrap();
    assert!(!sim.registry.can_attach(id, &m));
    sim.registry.attach(id, Component::Goal(HexCoordinate::new(2, 0))).unwrap();
    assert!(sim.registry.can_attach(id, &m));
    let bad = Component::Move(MoveComponent { ticks_passed: 2, ticks_to_move: 1 });
    assert!(!sim.registry.can_attach(id, &bad));
    let bad_hp = Component::Hp(HPComponent { currentHP: 6, maxHP: 5 });
    assert!(!sim.registry.can_attach(id, &bad_hp));
    assert!(sim.registry.can_attach(EntityId(77), &m));
}

#[test]
fn unhit_entity_at_zero_hit_points_stays() {
    let mut sim = Simulation::new();
    let b = spawn_target(&mut sim, 0, 0, 0);
    sim.advance().unwrap();
    assert!(sim.registry.contains(b));
    assert_eq!(current_hp(&sim, b), Some(0));
}

#[test]
fn entity_at_zero_hit_points_dies_when_hit() {
    let mut sim = Simulation::new();
    spawn_shooter(&mut sim, 0, 0, 1, 0, 2);
    let b = spawn_target(&mut sim, 1, 0, 0);
    sim.advance().unwrap();
    assert!(sim.registry.contains(b));
    sim.advance().unwrap();
    assert!(!sim.registry.contains(b));
}

#[test]
fn target_out_of_range_is_never_hit() {
    let mut sim = Simulation::new();
    let a = spawn_shooter(&mut sim, 0, 0, 1, 5, 1);
    let b = spawn_target(&mut sim, 2, 0, 10);
    for _ in 0..5 {
        sim.advance().unwrap();
    }
    assert_eq!(current_hp(&sim, b), Some(10));
    // an idle attacker's cooldown does not advance
    assert_eq!(
        sim.registry.get(a, ComponentKind::Shoot),
        Some(Component::Shoot(ShootComponent { range: 1, damage: 5, ticks_to_fire: 1, ticks_passed: 0 }))
    );
}

#[test]
fn nearest_target_wins_and_ties_go_to_lowest_id() {
    let mut sim = Simulation::new();
    spawn_shooter(&mut sim, 0, 0, 3, 1, 1);
    let far = spawn_target(&mut sim, 3, 0, 10);
    let b = spawn_target(&mut sim, 1, 0, 10);
    let c = spawn_target(&mut sim, -1, 0, 10);
    sim.advance().unwrap();
    assert_eq!(current_hp(&sim, far), Some(10));
    assert_eq!(current_hp(&sim, b), Some(9));
    assert_eq!(current_hp(&sim, c), Some(10));
}

#[test]
fn attacker_never_targets_itself() {
    let mut sim = Simulation::new();
    let a = spawn_shooter(&mut sim, 0, 0, 3, 1, 1);
    sim.registry.attach(a, Component::Hp(HPComponent { currentHP: 5, maxHP: 5 })).unwrap();
    sim.advance().unwrap();
    assert_eq!(current_hp(&sim, a), Some(5));
}

#[test]
fn overkill_floors_hit_points_at_zero() {
    let mut sim = Simulation::new();
    spawn_shooter(&mut sim, 0, 0, 2, 7, 1);
    let b = spawn_target(&mut sim, 1, 0, 10);
    sim.advance().unwrap();
    assert_eq!(current_hp(&sim, b), Some(3));
    assert_eq!(sim.registry.hp_of(b), Some(HPComponent { currentHP: 3, maxHP: 10 }));
    sim.advance().unwrap();
    assert!(!sim.registry.contains(b));
}

#[test]
fn hp_take_damage_floors_at_zero() {
    let h = HPComponent { currentHP: 4, maxHP: 9 };
    assert_eq!(h.take_damage(3), HPComponent { currentHP: 1, maxHP: 9 });
    assert_eq!(h.take_damage(6), HPComponent { currentHP: 0, maxHP: 9 });
    assert_eq!(h.take_damage(0), h);
}

#[test]
fn tower_attacks_like_a_shooter() {
    let mut sim = Simulation::new();
    let t = sim.registry.create();
    sim.registry.attach(t, Component::Position(PositionComponent { x: 0, y: 0 })).unwrap();
    let tower = Tower { range: 2, damage: 4, ticks_to_fire: 2, ticks_passed: 0 };
    sim.registry.attach(t, Component::Tower(tower)).unwrap();
    let b = spawn_target(&mut sim, 0, 2, 10);
    sim.advance().unwrap();
    assert_eq!(current_hp(&sim, b), Some(10));
    sim.advance().unwrap();
    assert_eq!(current_hp(&sim, b), Some(6));
    assert_eq!(sim.registry.get(t, ComponentKind::Shoot), None);
    assert_eq!(sim.registry.get(t, ComponentKind::Tower), Some(Component::Tower(tower)));
}

#[test]
fn walker_enters_range_then_is_shot() {
    let mut sim = Simulation::new();
    spawn_shooter(&mut sim, 0, 0, 1, 2, 1);
    let w = spawn_walker(&mut sim, 3, 0, 1, HexCoordinate::new(0, 0));
    sim.registry.attach(w, Component::Hp(HPComponent { currentHP: 6, maxHP: 6 })).unwrap();
    sim.advance().unwrap();
    assert_eq!(sim.registry.position_of(w), Some(PositionComponent { x: 2, y: 0 }));
    assert_eq!(current_hp(&sim, w), Some(6));
    // movement comes before targeting within a tick
    sim.advance().unwrap();
    assert_eq!(sim.registry.position_of(w), Some(PositionComponent { x: 1, y: 0 }));
    assert_eq!(current_hp(&sim, w), Some(4));
}

#[test]
fn replay_gives_identical_components() {
    fn build() -> (Simulation, Vec<EntityId>) {
        let mut sim = Simulation::new();
        let mut ids = Vec::new();
        ids.push(spawn_shooter(&mut sim, 0, 0, 2, 3, 2));
        ids.push(spawn_shooter(&mut sim, 4, -2, 3, 1, 1));
        ids.push(spawn_walker(&mut sim, 5, 5, 2, HexCoordinate::new(0, 0)));
        ids.push(spawn_target(&mut sim, 1, 1, 9));
        ids.push(spawn_target(&mut sim, -1, 1, 9));
        sim.registry.attach(ids[2], Component::Hp(HPComponent { currentHP: 12, maxHP: 12 })).unwrap();
        (sim, ids)
    }
    let (mut s1, ids) = build();
    let (mut s2, _) = build();
    let kinds = [
        ComponentKind::Position,
        ComponentKind::Move,
        ComponentKind::Goal,
        ComponentKind::Hp,
        ComponentKind::Shoot,
        ComponentKind::Tower,
    ];
    for _ in 0..12 {
        s1.advance().unwrap();
        s2.advance().unwrap();
        for id in &ids {
            for k in kinds {
                assert_eq!(s1.registry.get(*id, k), s2.registry.get(*id, k));
            }
        }
        assert_eq!(s1.registry.len(), s2.registry.len());
    }
}

#[test]
fn reentrant_tick_is_refused() {
    let mut sim = Simulation::new();
    let b = spawn_target(&mut sim, 0, 0, 3);
    sim.state = ClockState::Ticking;
    assert_eq!(sim.advance(), Err(SimError::ReentrantTick));
    assert_eq!(sim.state, ClockState::Ticking);
    assert_eq!(current_hp(&sim, b), Some(3));
    sim.state = ClockState::Idle;
    assert_eq!(sim.advance(), Ok(()));
    assert_eq!(sim.state, ClockState::Idle);
}

#[test]
fn attach_to_unknown_entity_fails() {
    let mut sim = Simulation::new();
    let a = sim.registry.create();
    let pos = Component::Position(PositionComponent { x: 1, y: 1 });
    assert_eq!(sim.registry.attach(EntityId(99), pos), Err(SimError::UnknownEntity));
    assert!(sim.registry.destroy(a));
    assert_eq!(sim.registry.attach(a, pos), Err(SimError::UnknownEntity));
}

#[test]
fn destroy_is_idempotent() {
    let mut sim = Simulation::new();
    let a = sim.registry.create();
    let b = sim.registry.create();
    assert!(sim.registry.destroy(a));
    assert!(!sim.registry.destroy(a));
    assert!(!sim.registry.destroy(EntityId(0)));
    assert!(sim.registry.contains(b));
    assert_eq!(sim.registry.len(), 1);
}

#[test]
fn create_hands_out_fresh_identifiers() {
    let mut sim = Simulation::new();
    let a = sim.registry.create();
    let b = sim.registry.create();
    sim.registry.destroy(b);
    let c = sim.registry.create();
    assert_eq!(a, EntityId(1));
    assert_eq!(b, EntityId(2));
    assert_eq!(c, EntityId(3));
    assert_eq!(sim.registry.get(c, ComponentKind::Position), None);
}

#[test]
fn attach_replaces_and_get_reads_back() {
    let mut sim = Simulation::new();
    let a = sim.registry.create();
    assert_eq!(sim.registry.get(a, ComponentKind::Hp), None);
    sim.registry.attach(a, Component::Hp(HPComponent { currentHP: 2, maxHP: 5 })).unwrap();
    sim.registry.attach(a, Component::Hp(HPComponent { currentHP: 4, maxHP: 5 })).unwrap();
    assert_eq!(
        sim.registry.get(a, ComponentKind::Hp),
        Some(Component::Hp(HPComponent { currentHP: 4, maxHP: 5 }))
    );
    let g = HexCoordinate::new(2, 2);
    sim.registry.attach(a, Component::Goal(g)).unwrap();
    assert_eq!(sim.registry.get(a, ComponentKind::Goal), Some(Component::Goal(g)));
}

#[test]
fn iterate_with_selects_supersets_in_order() {
    let mut sim = Simulation::new();
    let a = spawn_target(&mut sim, 0, 0, 5);
    let s = spawn_shooter(&mut sim, 1, 0, 1, 1, 1);
    let b = spawn_target(&mut sim, 2, 0, 5);
    let bare = sim.registry.create();
    assert_eq!(sim.registry.iterate_with(hp_only()), vec![a, b]);
    let everything = ComponentSet { position: false, movement: false, goal: false, hp: false, attacker: false };
    assert_eq!(sim.registry.iterate_with(everything), vec![a, s, b, bare]);
    let armed = ComponentSet { position: true, movement: false, goal: false, hp: false, attacker: true };
    assert_eq!(sim.registry.iterate_with(armed), vec![s]);
}
