//! Entities: an identifier with a sparse set of components.
use vstd::prelude::*;

use crate::components::{Attacker, HPComponent, MoveComponent, PositionComponent, ShootComponent, Tower};
use crate::hex::HexCoordinate;

verus! {

/// An entity identifier; identifiers are handed out in increasing order and never reused.
#[derive(Clone, Copy, Debug, PartialEq, Eq, Hash, Structural)]
pub struct EntityId(pub u64);

/// One component value, ready to be attached to an entity.
#[derive(Clone, Copy, Debug, PartialEq, Eq, Structural)]
pub enum Component {
    Position(PositionComponent),
    Move(MoveComponent),
    /// The hex that a moving entity walks toward.
    Goal(HexCoordinate),
    Hp(HPComponent),
    Shoot(ShootComponent),
    Tower(Tower),
}

/// The kinds of component, to ask for one of them.
#[derive(Clone, Copy, Debug, PartialEq, Eq, Structural)]
pub enum ComponentKind {
    Position,
    Move,
    Goal,
    Hp,
    Shoot,
    Tower,
}

/// A set of required components; `attacker` asks for a ranged attack of either kind.
#[derive(Clone, Copy, Debug, PartialEq, Eq, Structural)]
pub struct ComponentSet {
    pub position: bool,
    pub movement: bool,
    pub goal: bool,
    pub hp: bool,
    pub attacker: bool,
}

/// An entity and the components it holds. It carries at most one ranged attack,
/// either a `ShootComponent` or a `Tower`.
#[derive(Clone, Copy, Debug)]
pub struct EntityRecord {
    pub id: EntityId,
    pub position: Option<PositionComponent>,
    pub movement: Option<MoveComponent>,
    pub goal: Option<HexCoordinate>,
    pub hp: Option<HPComponent>,
    pub attacker: Option<Attacker>,
}

impl Component {
    pub open spec fn wf(self) -> bool {
        match self {
            Component::Move(m) => m.wf(),
            Component::Hp(h) => h.wf(),
            Component::Shoot(s) => s.wf(),
            Component::Tower(t) => t.wf(),
            _ => true,
        }
    }

    /// Whether the component satisfies its invariant.
    pub fn valid(&self) -> (b: bool)
        ensures
            b == self.wf(),
    {
        match self {
            Component::Move(m) => 0 <= m.ticks_passed && m.ticks_passed <= m.ticks_to_move
                && m.ticks_to_move > 0,
            Component::Hp(h) => 0 <= h.currentHP && h.currentHP <= h.maxHP,
            Component::Shoot(s) => 0 <= s.ticks_passed && s.ticks_passed <= s.ticks_to_fire
                && s.ticks_to_fire > 0 && s.range >= 0 && s.damage >= 0,
            Component::Tower(t) => 0 <= t.ticks_passed && t.ticks_passed <= t.ticks_to_fire
                && t.ticks_to_fire > 0 && t.range >= 0 && t.damage >= 0,
            _ => true,
        }
    }
}

impl EntityRecord {
    /// Every component the record holds satisfies its invariant, and a record that
    /// moves has a goal from which one step east still fits in 32 bits.
    pub open spec fn wf(self) -> bool {
        &&& (self.movement matches Some(m) ==> m.wf())
        &&& (self.movement is Some ==> (self.goal matches Some(g) && g.q < i32::MAX))
        &&& (self.hp matches Some(h) ==> h.wf())
        &&& (self.attacker matches Some(a) ==> a.wf())
    }

    /// A record with no components.
    pub open spec fn bare(id: EntityId) -> EntityRecord {
        EntityRecord { id, position: None, movement: None, goal: None, hp: None, attacker: None }
    }

    /// The record with `c` added, or put in place of the component of its kind.
    pub open spec fn with_component(self, c: Component) -> EntityRecord {
        match c {
            Component::Position(p) => EntityRecord { position: Some(p), ..self },
            Component::Move(m) => EntityRecord { movement: Some(m), ..self },
            Component::Goal(g) => EntityRecord { goal: Some(g), ..self },
            Component::Hp(h) => EntityRecord { hp: Some(h), ..self },
            Component::Shoot(s) => EntityRecord { attacker: Some(Attacker::Shoot(s)), ..self },
            Component::Tower(t) => EntityRecord { attacker: Some(Attacker::Tower(t)), ..self },
        }
    }

    /// The component of kind `k` that the record holds, if any.
    pub open spec fn component(self, k: ComponentKind) -> Option<Component> {
        match k {
            ComponentKind::Position => match self.position {
                Some(p) => Some(Component::Position(p)),
                None => None,
            },
            ComponentKind::Move => match self.movement {
                Some(m) => Some(Component::Move(m)),
                None => None,
            },
            ComponentKind::Goal => match self.goal {
                Some(g) => Some(Component::Goal(g)),
                None => None,
            },
            ComponentKind::Hp => match self.hp {
                Some(h) => Some(Component::Hp(h)),
                None => None,
            },
            ComponentKind::Shoot => match self.attacker {
                Some(Attacker::Shoot(s)) => Some(Component::Shoot(s)),
                _ => None,
            },
            ComponentKind::Tower => match self.attacker {
                Some(Attacker::Tower(t)) => Some(Component::Tower(t)),
                _ => None,
            },
        }
    }

    /// The record holds every component that `set` asks for.
    pub open spec fn has_all(self, set: ComponentSet) -> bool {
        &&& (set.position ==> self.position is Some)
        &&& (set.movement ==> self.movement is Some)
        &&& (set.goal ==> self.goal is Some)
        &&& (set.hp ==> self.hp is Some)
        &&& (set.attacker ==> self.attacker is Some)
    }

    pub fn new_bare(id: EntityId) -> (r: EntityRecord)
        ensures
            r == EntityRecord::bare(id),
    {
        EntityRecord { id, position: None, movement: None, goal: None, hp: None, attacker: None }
    }

    pub fn attach(&mut self, c: Component)
        ensures
            *final(self) == old(self).with_component(c),
    {
        match c {
            Component::Position(p) => self.position = Some(p),
            Component::Move(m) => self.movement = Some(m),
            Component::Goal(g) => self.goal = Some(g),
            Component::Hp(h) => self.hp = Some(h),
            Component::Shoot(s) => self.attacker = Some(Attacker::Shoot(s)),
            Component::Tower(t) => self.attacker = Some(Attacker::Tower(t)),
        }
    }

    pub fn get(&self, k: ComponentKind) -> (c: Option<Component>)
        ensures
            c == self.component(k),
    {
        match k {
            ComponentKind::Position => match self.position {
                Some(p) => Some(Component::Position(p)),
                None => None,
            },
            ComponentKind::Move => match self.movement {
                Some(m) => Some(Component::Move(m)),
                None => None,
            },
            ComponentKind::Goal => match self.goal {
                Some(g) => Some(Component::Goal(g)),
                None => None,
            },
            ComponentKind::Hp => match self.hp {
                Some(h) => Some(Component::Hp(h)),
                None => None,
            },
            ComponentKind::Shoot => match self.attacker {
                Some(Attacker::Shoot(s)) => Some(Component::Shoot(s)),
                _ => None,
            },
            ComponentKind::Tower => match self.attacker {
                Some(Attacker::Tower(t)) => Some(Component::Tower(t)),
                _ => None,
            },
        }
    }

    /// Whether the record satisfies its invariant.
    pub fn valid(&self) -> (b: bool)
        ensures
            b == self.wf(),
    {
        let move_ok = match self.movement {
            Some(m) => 0 <= m.ticks_passed && m.ticks_passed <= m.ticks_to_move && m.ticks_to_move
                > 0 && match self.goal {
                Some(g) => g.q < i32::MAX,
                None => false,
            },
            None => true,
        };
        let hp_ok = match self.hp {
            Some(h) => 0 <= h.currentHP && h.currentHP <= h.maxHP,
            None => true,
        };
        let attack_ok = match self.attacker {
            Some(Attacker::Shoot(s)) => 0 <= s.ticks_passed && s.ticks_passed <= s.ticks_to_fire
                && s.ticks_to_fire > 0 && s.range >= 0 && s.damage >= 0,
            Some(Attacker::Tower(t)) => 0 <= t.ticks_passed && t.ticks_passed <= t.ticks_to_fire
                && t.ticks_to_fire > 0 && t.range >= 0 && t.damage >= 0,
            None => true,
        };
        move_ok && hp_ok && attack_ok
    }

    pub fn holds_all(&self, set: &ComponentSet) -> (b: bool)
        ensures
            b == self.has_all(*set),
    {
        (!set.position || self.position.is_some()) && (!set.movement || self.movement.is_some()) && (
        !set.goal || self.goal.is_some()) && (!set.hp || self.hp.is_some()) && (!set.attacker
            || self.attacker.is_some())
    }
}

} // verus!
