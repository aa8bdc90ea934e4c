//! Component values that entities carry, each with its invariant.
use vstd::prelude::*;

verus! {

/// Movement pacing: the entity steps once every `ticks_to_move` ticks.
#[derive(Clone, Copy, Debug, PartialEq, Eq, Structural)]
pub struct MoveComponent {
    pub ticks_passed: i32,
    pub ticks_to_move: i32,
}

impl MoveComponent {
    pub open spec fn wf(self) -> bool {
        0 <= self.ticks_passed <= self.ticks_to_move && self.ticks_to_move > 0
    }
}

/// Hit points; an entity whose current hit points reach zero dies.
#[allow(non_snake_case)]
#[derive(Clone, Copy, Debug, PartialEq, Eq, Structural)]
pub struct HPComponent {
    pub currentHP: i32,
    pub maxHP: i32,
}

impl HPComponent {
    pub open spec fn wf(self) -> bool {
        0 <= self.currentHP <= self.maxHP
    }

    /// Hit points after taking `damage`, floored at zero.
    pub open spec fn after_hit(self, damage: i32) -> HPComponent {
        HPComponent {
            currentHP: if self.currentHP - damage < 0 {
                0
            } else {
                (self.currentHP - damage) as i32
            },
            maxHP: self.maxHP,
        }
    }

    /// Applies `damage`, never going below zero.
    pub fn take_damage(&self, damage: i32) -> (h: HPComponent)
        requires
            self.wf(),
            damage >= 0,
        ensures
            h == self.after_hit(damage),
            h.wf(),
            h.currentHP >= 0,
    {
        let left = self.currentHP - damage;
        HPComponent { currentHP: if left < 0 { 0 } else { left }, maxHP: self.maxHP }
    }
}

/// A ranged attack of a mobile unit: it fires `damage` at a target within `range`
/// once every `ticks_to_fire` ticks in which it has a target.
#[derive(Clone, Copy, Debug, PartialEq, Eq, Structural)]
pub struct ShootComponent {
    pub range: i32,
    pub damage: i32,
    pub ticks_to_fire: i32,
    pub ticks_passed: i32,
}

impl ShootComponent {
    pub open spec fn wf(self) -> bool {
        0 <= self.ticks_passed <= self.ticks_to_fire && self.ticks_to_fire > 0 && self.range >= 0
            && self.damage >= 0
    }
}

/// A ranged attack of a turret; it behaves as a `ShootComponent` does.
#[derive(Clone, Copy, Debug, PartialEq, Eq, Structural)]
pub struct Tower {
    pub range: i32,
    pub damage: i32,
    pub ticks_to_fire: i32,
    pub ticks_passed: i32,
}

impl Tower {
    pub open spec fn wf(self) -> bool {
        0 <= self.ticks_passed <= self.ticks_to_fire && self.ticks_to_fire > 0 && self.range >= 0
            && self.damage >= 0
    }
}

/// Where an entity stands: `x` is the axial q coordinate, `y` the axial r coordinate.
#[derive(Clone, Copy, Debug, PartialEq, Eq, Structural)]
pub struct PositionComponent {
    pub x: i32,
    pub y: i32,
}

/// The one ranged attack an entity may carry, tagged with its kind.
#[derive(Clone, Copy, Debug, PartialEq, Eq, Structural)]
pub enum Attacker {
    Shoot(ShootComponent),
    Tower(Tower),
}

impl Attacker {
    pub open spec fn wf(self) -> bool {
        match self {
            Attacker::Shoot(s) => s.wf(),
            Attacker::Tower(t) => t.wf(),
        }
    }

    pub open spec fn range_of(self) -> i32 {
        match self {
            Attacker::Shoot(s) => s.range,
            Attacker::Tower(t) => t.range,
        }
    }

    pub open spec fn damage_of(self) -> i32 {
        match self {
            Attacker::Shoot(s) => s.damage,
            Attacker::Tower(t) => t.damage,
        }
    }

    pub open spec fn ticks_to_fire_of(self) -> i32 {
        match self {
            Attacker::Shoot(s) => s.ticks_to_fire,
            Attacker::Tower(t) => t.ticks_to_fire,
        }
    }

    pub open spec fn ticks_passed_of(self) -> i32 {
        match self {
            Attacker::Shoot(s) => s.ticks_passed,
            Attacker::Tower(t) => t.ticks_passed,
        }
    }

    /// The same attack with its cooldown counter set to `n`.
    pub open spec fn with_ticks_passed(self, n: i32) -> Attacker {
        match self {
            Attacker::Shoot(s) => Attacker::Shoot(ShootComponent { ticks_passed: n, ..s }),
            Attacker::Tower(t) => Attacker::Tower(Tower { ticks_passed: n, ..t }),
        }
    }

    pub fn range(&self) -> (r: i32)
        ensures
            r == self.range_of(),
    {
        match self {
            Attacker::Shoot(s) => s.range,
            Attacker::Tower(t) => t.range,
        }
    }

    pub fn damage(&self) -> (d: i32)
        ensures
            d == self.damage_of(),
    {
        match self {
            Attacker::Shoot(s) => s.damage,
            Attacker::Tower(t) => t.damage,
        }
    }

    pub fn ticks_to_fire(&self) -> (n: i32)
        ensures
            n == self.ticks_to_fire_of(),
    {
        match self {
            Attacker::Shoot(s) => s.ticks_to_fire,
            Attacker::Tower(t) => t.ticks_to_fire,
        }
    }

    pub fn ticks_passed(&self) -> (n: i32)
        ensures
            n == self.ticks_passed_of(),
    {
        match self {
            Attacker::Shoot(s) => s.ticks_passed,
            Attacker::Tower(t) => t.ticks_passed,
        }
    }

    pub fn set_ticks_passed(&self, n: i32) -> (a: Attacker)
        ensures
            a == self.with_ticks_passed(n),
    {
        match self {
            Attacker::Shoot(s) => Attacker::Shoot(ShootComponent { ticks_passed: n, ..*s }),
            Attacker::Tower(t) => Attacker::Tower(Tower { ticks_passed: n, ..*t }),
        }
    }
}

} // verus!
