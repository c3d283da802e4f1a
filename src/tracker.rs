//! The set of pins on a table and how collisions and the clock change it.
use vstd::prelude::*;
use crate::pin::{
    after_tick, look_of, new_pin, struck_by, touches, with_last_hit, Pin, PinLook, PinSpec,
};

verus! {

/// A collision event of the physics host, naming the two bodies involved.
#[derive(Clone, Copy, Debug, PartialEq, Eq, Structural)]
pub enum CollisionEvent {
    Started(u64, u64),
    Stopped(u64, u64),
}

/// Whether event `e` is the start of a collision that involves pin `p`.
pub open spec fn starts_touching(e: CollisionEvent, p: Pin) -> bool {
    match e {
        CollisionEvent::Started(a, b) => touches(p, a, b),
        CollisionEvent::Stopped(_, _) => false,
    }
}

/// Whether some event of `events` starts a collision that involves pin `p`.
pub open spec fn hit_by_any(p: Pin, events: Seq<CollisionEvent>) -> bool {
    exists|k: int| 0 <= k < events.len() && #[trigger] starts_touching(events[k], p)
}

/// All pins after a collision of bodies `a` and `b` that started at `now`.
pub open spec fn strike_all(pins: Seq<Pin>, a: u64, b: u64, now: u64) -> Seq<Pin> {
    pins.map_values(|p: Pin| struck_by(p, a, b, now))
}

/// All pins after a tick of the clock at `now`.
pub open spec fn tick_all(pins: Seq<Pin>, now: u64) -> Seq<Pin> {
    pins.map_values(|p: Pin| after_tick(p, now))
}

/// All pins after the events of one tick, all seen at `now`: a pin that some
/// starting collision involves is struck at `now`, the others are unchanged.
pub open spec fn handle_events(pins: Seq<Pin>, events: Seq<CollisionEvent>, now: u64) -> Seq<Pin> {
    pins.map_values(
        |p: Pin|
            if hit_by_any(p, events) {
                with_last_hit(p, Some(now))
            } else {
                p
            },
    )
}

/// The pins of a table, in the order in which they were placed.
pub struct PinTracker {
    pins: Vec<Pin>,
}

impl View for PinTracker {
    type V = Seq<Pin>;

    closed spec fn view(&self) -> Seq<Pin> {
        self.pins@
    }
}

impl PinTracker {
    /// A tracker with no pins.
    pub fn new() -> (r: PinTracker)
        ensures
            r@ == Seq::<Pin>::empty(),
    {
        PinTracker { pins: Vec::new() }
    }

    /// A tracker holding one idle pin for each `(body, spec)` entry, in order.
    pub fn initialize(entries: &Vec<(u64, PinSpec)>) -> (r: PinTracker)
        ensures
            r@.len() == entries@.len(),
            forall|i: int|
                0 <= i < entries@.len() ==> #[trigger] r@[i] == new_pin(entries@[i].0, entries@[i].1),
            forall|i: int| 0 <= i < r@.len() ==> look_of(#[trigger] r@[i]) == PinLook::Idle,
    {
        let mut t = PinTracker::new();
        let n = entries.len();
        let mut i: usize = 0;
        while i < n
            invariant
                n == entries@.len(),
                0 <= i <= n,
                t@.len() == i,
                forall|j: int| 0 <= j < i ==> #[trigger] t@[j] == new_pin(entries@[j].0, entries@[j].1),
            decreases n - i,
        {
            let (body, spec) = entries[i];
            t.add_pin(body, spec);
            i += 1;
        }
        t
    }

    /// Places one more idle pin, for body `body`, as `spec` says.
    pub fn add_pin(&mut self, body: u64, spec: PinSpec)
        ensures
            final(self)@ == old(self)@.push(new_pin(body, spec)),
    {
        let p = Pin::new(body, spec);
        self.pins.push(p);
    }

    /// The number of pins.
    pub fn len(&self) -> (r: usize)
        ensures
            r == self@.len(),
    {
        self.pins.len()
    }

    /// All pins, in the order in which they were placed.
    pub fn pins(&self) -> (r: &Vec<Pin>)
        ensures
            r@ == self@,
    {
        &self.pins
    }

    /// The pin at index `i`.
    pub fn pin(&self, i: usize) -> (r: Pin)
        requires
            i < self@.len(),
        ensures
            r == self@[i as int],
    {
        self.pins[i]
    }

    /// How the pin at index `i` is drawn.
    pub fn look(&self, i: usize) -> (r: PinLook)
        requires
            i < self@.len(),
        ensures
            r == look_of(self@[i as int]),
    {
        self.pins[i].look()
    }

    /// The index of the first pin for body `body`, if any pin is for it.
    pub fn find_by_body(&self, body: u64) -> (r: Option<usize>)
        ensures
            match r {
                Some(i) => i < self@.len() && self@[i as int].body == body && forall|j: int|
                    0 <= j < i ==> #[trigger] self@[j].body != body,
                None => forall|j: int| 0 <= j < self@.len() ==> #[trigger] self@[j].body != body,
            },
    {
        let n = self.pins.len();
        let mut i: usize = 0;
        while i < n
            invariant
                n == self@.len(),
                0 <= i <= n,
                forall|j: int| 0 <= j < i ==> #[trigger] self@[j].body != body,
            decreases n - i,
        {
            if self.pins[i].body == body {
                return Some(i);
            }
            i += 1;
        }
        None
    }

    /// Records a collision of bodies `a` and `b` that started at `now`: every
    /// pin for either body is struck at `now`; nothing else changes.
    pub fn on_collision_start(&mut self, a: u64, b: u64, now: u64)
        ensures
            final(self)@ == strike_all(old(self)@, a, b, now),
            final(self)@.len() == old(self)@.len(),
            forall|i: int|
                0 <= i < old(self)@.len() && touches(#[trigger] old(self)@[i], a, b) ==> {
                    &&& final(self)@[i].last_hit == Some(now)
                    &&& look_of(final(self)@[i]) == PinLook::Struck
                },
            forall|i: int|
                0 <= i < old(self)@.len() && !touches(#[trigger] old(self)@[i], a, b)
                    ==> final(self)@[i] == old(self)@[i],
    {
        let n = self.pins.len();
        let mut i: usize = 0;
        while i < n
            invariant
                n == old(self)@.len(),
                self.pins@.len() == n,
                0 <= i <= n,
                forall|j: int|
                    0 <= j < i ==> #[trigger] self.pins@[j] == struck_by(old(self)@[j], a, b, now),
                forall|j: int| i <= j < n ==> #[trigger] self.pins@[j] == old(self)@[j],
            decreases n - i,
        {
            let p = self.pins[i].strike(a, b, now);
            self.pins.set(i, p);
            i += 1;
        }
        assert(self.pins@ =~= strike_all(old(self)@, a, b, now));
    }

    /// Records the collision events of one tick, all seen at `now`: every pin
    /// that a starting collision involves is struck at `now`; the end of a
    /// collision, or one that involves no pin, changes nothing.
    pub fn on_collision_events(&mut self, events: &Vec<CollisionEvent>, now: u64)
        ensures
            final(self)@ == handle_events(old(self)@, events@, now),
    {
        let n = events.len();
        let mut k: usize = 0;
        assert(old(self)@ =~= handle_events(old(self)@, events@.take(0), now));
        while k < n
            invariant
                n == events@.len(),
                0 <= k <= n,
                self@ == handle_events(old(self)@, events@.take(k as int), now),
            decreases n - k,
        {
            let ghost before = self@;
            match events[k] {
                CollisionEvent::Started(a, b) => {
                    self.on_collision_start(a, b, now);
                },
                CollisionEvent::Stopped(_, _) => {},
            }
            proof {
                let seen = events@.take(k as int);
                let next = events@.take(k + 1);
                assert forall|i: int| 0 <= i < old(self)@.len() implies #[trigger] hit_by_any(
                    old(self)@[i],
                    next,
                ) == (hit_by_any(old(self)@[i], seen) || starts_touching(
                    events@[k as int],
                    old(self)@[i],
                )) by {
                    let p = old(self)@[i];
                    if hit_by_any(p, seen) {
                        let w = choose|w: int| 0 <= w < seen.len() && #[trigger] starts_touching(seen[w], p);
                        assert(next[w] == seen[w]);
                    }
                    if starts_touching(events@[k as int], p) {
                        assert(next[k as int] == events@[k as int]);
                    }
                    if hit_by_any(p, next) {
                        let w = choose|w: int| 0 <= w < next.len() && #[trigger] starts_touching(next[w], p);
                        if w < k {
                            assert(seen[w] == next[w]);
                        }
                    }
                }
                assert(self@ =~= handle_events(old(self)@, next, now));
            }
            k += 1;
        }
        assert(events@.take(n as int) =~= events@);
    }

    /// Advances the clock to `now`: every pin whose last hit lies more than the
    /// cool-down before `now` turns idle; nothing else changes.
    pub fn on_tick(&mut self, now: u64)
        ensures
            final(self)@ == tick_all(old(self)@, now),
    {
        let n = self.pins.len();
        let mut i: usize = 0;
        while i < n
            invariant
                n == old(self)@.len(),
                self.pins@.len() == n,
                0 <= i <= n,
                forall|j: int| 0 <= j < i ==> #[trigger] self.pins@[j] == after_tick(old(self)@[j], now),
                forall|j: int| i <= j < n ==> #[trigger] self.pins@[j] == old(self)@[j],
            decreases n - i,
        {
            let p = self.pins[i].tick(now);
            self.pins.set(i, p);
            i += 1;
        }
        assert(self.pins@ =~= tick_all(old(self)@, now));
    }
}

} // verus!
