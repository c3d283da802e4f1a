//! A single pin: its fixed geometry and its hit state.
use vstd::prelude::*;

verus! {

/// Radius of a pin whose layout entry gives none, in millimetres.
pub const DEFAULT_RADIUS_MM: u64 = 50;

/// How long a pin stays struck after its last hit, in milliseconds.
pub const COOL_DOWN_MS: u64 = 3000;

/// A point of the table, in millimetres from the table's centre.
#[derive(Clone, Copy, Debug, PartialEq, Eq, Structural)]
pub struct Point {
    pub x: i64,
    pub y: i64,
}

/// What a pin looks like: its outline colour tells the two apart.
#[derive(Clone, Copy, Debug, PartialEq, Eq, Structural)]
pub enum PinLook {
    Idle,
    Struck,
}

/// One entry of a table layout: where a pin stands and, optionally, its radius.
#[derive(Clone, Copy, Debug, PartialEq, Eq)]
pub struct PinSpec {
    pub position: Point,
    pub radius: Option<u64>,
}

/// A pin on the table.
///
/// `body` identifies the physical body that stands for the pin in the
/// simulation; collision events name bodies. `last_hit` is the time of the
/// last hit still within its cool-down, or `None` when the pin is idle.
#[derive(Clone, Copy, Debug, PartialEq, Eq)]
pub struct Pin {
    pub body: u64,
    pub position: Point,
    pub radius: u64,
    pub last_hit: Option<u64>,
}

/// The radius that a layout entry stands for.
pub open spec fn radius_of(spec: PinSpec) -> u64 {
    match spec.radius {
        Some(r) => r,
        None => DEFAULT_RADIUS_MM,
    }
}

/// The idle pin that `Pin::new` makes for body `body` and layout entry `spec`.
pub open spec fn new_pin(body: u64, spec: PinSpec) -> Pin {
    Pin { body, position: spec.position, radius: radius_of(spec), last_hit: None }
}

/// The look of a pin: struck exactly while a hit is on record.
pub open spec fn look_of(p: Pin) -> PinLook {
    if p.last_hit is Some {
        PinLook::Struck
    } else {
        PinLook::Idle
    }
}

/// Whether a collision between bodies `a` and `b` involves pin `p`.
pub open spec fn touches(p: Pin, a: u64, b: u64) -> bool {
    p.body == a || p.body == b
}

/// Whether a hit recorded at `last_hit` has outlived its cool-down at `now`.
pub open spec fn expired(last_hit: Option<u64>, now: u64) -> bool {
    match last_hit {
        Some(t) => now - t > COOL_DOWN_MS,
        None => false,
    }
}

/// Pin `p` with its hit state replaced.
pub open spec fn with_last_hit(p: Pin, last_hit: Option<u64>) -> Pin {
    Pin { body: p.body, position: p.position, radius: p.radius, last_hit }
}

/// Pin `p` after a collision of bodies `a` and `b` that started at `now`.
pub open spec fn struck_by(p: Pin, a: u64, b: u64, now: u64) -> Pin {
    if touches(p, a, b) {
        with_last_hit(p, Some(now))
    } else {
        p
    }
}

/// Pin `p` after a tick of the clock at `now`.
pub open spec fn after_tick(p: Pin, now: u64) -> Pin {
    if expired(p.last_hit, now) {
        with_last_hit(p, None)
    } else {
        p
    }
}

impl Pin {
    /// A new, idle pin for the physical body `body`, placed as `spec` says.
    pub fn new(body: u64, spec: PinSpec) -> (r: Pin)
        ensures
            r == new_pin(body, spec),
            look_of(r) == PinLook::Idle,
    {
        let radius: u64 = match spec.radius {
            Some(r) => r,
            None => DEFAULT_RADIUS_MM,
        };
        Pin { body, position: spec.position, radius, last_hit: None }
    }

    /// How the pin is drawn.
    pub fn look(&self) -> (r: PinLook)
        ensures
            r == look_of(*self),
    {
        match self.last_hit {
            Some(_) => PinLook::Struck,
            None => PinLook::Idle,
        }
    }

    /// Whether a collision between bodies `a` and `b` involves this pin.
    pub fn is_touched_by(&self, a: u64, b: u64) -> (r: bool)
        ensures
            r == touches(*self, a, b),
    {
        self.body == a || self.body == b
    }

    /// Whether the pin's cool-down is over at `now`.
    pub fn cool_down_over(&self, now: u64) -> (r: bool)
        ensures
            r == expired(self.last_hit, now),
    {
        match self.last_hit {
            Some(t) => now >= t && now - t > COOL_DOWN_MS,
            None => false,
        }
    }

    /// This pin after a collision of bodies `a` and `b` that started at `now`:
    /// struck at `now` if the collision involves it, unchanged otherwise.
    pub fn strike(&self, a: u64, b: u64, now: u64) -> (r: Pin)
        ensures
            r == struck_by(*self, a, b, now),
    {
        if self.is_touched_by(a, b) {
            Pin { body: self.body, position: self.position, radius: self.radius, last_hit: Some(now) }
        } else {
            *self
        }
    }

    /// This pin after a tick of the clock at `now`: idle again once more than
    /// the cool-down has passed since its last hit, unchanged otherwise.
    pub fn tick(&self, now: u64) -> (r: Pin)
        ensures
            r == after_tick(*self, now),
    {
        if self.cool_down_over(now) {
            Pin { body: self.body, position: self.position, radius: self.radius, last_hit: None }
        } else {
            *self
        }
    }
}

} // verus!
