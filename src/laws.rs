//! What holds of the pins over any run of collisions and clock ticks.
use vstd::prelude::*;
use crate::pin::{expired, look_of, touches, Pin, PinLook, COOL_DOWN_MS};
use crate::tracker::{handle_events, starts_touching, strike_all, tick_all, CollisionEvent};

verus! {

/// One thing that happens to the pins: a collision of two bodies starts at
/// `now`, or the clock ticks at `now`.
#[derive(Clone, Copy, Debug, PartialEq, Eq, Structural)]
pub enum TrackerStep {
    Collision { a: u64, b: u64, now: u64 },
    Tick { now: u64 },
}

/// The pins after one step, as `PinTracker::on_collision_start` and
/// `PinTracker::on_tick` compute it.
pub open spec fn apply_step(pins: Seq<Pin>, s: TrackerStep) -> Seq<Pin> {
    match s {
        TrackerStep::Collision { a, b, now } => strike_all(pins, a, b, now),
        TrackerStep::Tick { now } => tick_all(pins, now),
    }
}

/// The pins after the steps of `steps`, taken in order.
pub open spec fn run(pins: Seq<Pin>, steps: Seq<TrackerStep>) -> Seq<Pin>
    decreases steps.len(),
{
    if steps.len() == 0 {
        pins
    } else {
        run(apply_step(pins, steps[0]), steps.drop_first())
    }
}

/// Whether step `s` is a collision that involves body `body`.
pub open spec fn strikes_body(s: TrackerStep, body: u64) -> bool {
    match s {
        TrackerStep::Collision { a, b, now: _ } => body == a || body == b,
        TrackerStep::Tick { now: _ } => false,
    }
}

/// Whether step `s` is a tick at which a hit recorded at `last_hit` has
/// outlived its cool-down.
pub open spec fn expires(s: TrackerStep, last_hit: Option<u64>) -> bool {
    match s {
        TrackerStep::Collision { a: _, b: _, now: _ } => false,
        TrackerStep::Tick { now } => expired(last_hit, now),
    }
}

/// Whether some step of `steps` is a tick at which a hit recorded at
/// `last_hit` has outlived its cool-down.
pub open spec fn some_tick_expires(steps: Seq<TrackerStep>, last_hit: Option<u64>) -> bool {
    exists|k: int| 0 <= k < steps.len() && #[trigger] expires(steps[k], last_hit)
}

/// However many collisions and ticks come, the number of pins stays the same
/// and no pin changes its body, position or radius.
pub proof fn lemma_geometry_kept(pins: Seq<Pin>, steps: Seq<TrackerStep>)
    ensures
        run(pins, steps).len() == pins.len(),
        forall|i: int|
            0 <= i < pins.len() ==> {
                &&& (#[trigger] run(pins, steps)[i]).body == pins[i].body
                &&& run(pins, steps)[i].position == pins[i].position
                &&& run(pins, steps)[i].radius == pins[i].radius
            },
    decreases steps.len(),
{
    if steps.len() > 0 {
        let next = apply_step(pins, steps[0]);
        lemma_geometry_kept(next, steps.drop_first());
        assert forall|i: int| 0 <= i < pins.len() implies {
            &&& (#[trigger] run(pins, steps)[i]).body == pins[i].body
            &&& run(pins, steps)[i].position == pins[i].position
            &&& run(pins, steps)[i].radius == pins[i].radius
        } by {
            assert(next[i].body == pins[i].body);
            assert(run(next, steps.drop_first())[i].body == next[i].body);
        }
    }
}

/// A pin that no collision involves keeps its last hit until the first tick
/// that comes more than the cool-down after it, and is idle from that tick on:
/// it ends idle exactly when some tick came more than the cool-down after its
/// last hit, and keeps that hit otherwise.
pub proof fn lemma_cool_down_ends(pins: Seq<Pin>, steps: Seq<TrackerStep>, i: int)
    requires
        0 <= i < pins.len(),
        forall|k: int| 0 <= k < steps.len() ==> !strikes_body(#[trigger] steps[k], pins[i].body),
    ensures
        run(pins, steps).len() == pins.len(),
        run(pins, steps)[i].last_hit == (if some_tick_expires(steps, pins[i].last_hit) {
            None
        } else {
            pins[i].last_hit
        }),
        look_of(run(pins, steps)[i]) == (if some_tick_expires(steps, pins[i].last_hit) {
            PinLook::Idle
        } else {
            look_of(pins[i])
        }),
    decreases steps.len(),
{
    lemma_geometry_kept(pins, steps);
    if steps.len() > 0 {
        let s = steps[0];
        let rest = steps.drop_first();
        let next = apply_step(pins, s);
        let lh = pins[i].last_hit;
        assert(!strikes_body(steps[0], pins[i].body));
        assert(next[i].body == pins[i].body);
        assert(next[i].last_hit == (if expires(s, lh) { None } else { lh }));
        assert forall|k: int| 0 <= k < rest.len() implies !strikes_body(
            #[trigger] rest[k],
            next[i].body,
        ) by {
            assert(rest[k] == steps[k + 1]);
        }
        lemma_cool_down_ends(next, rest, i);
        if expires(s, lh) {
            assert(some_tick_expires(steps, lh));
            assert(!some_tick_expires(rest, None));
        } else {
            if some_tick_expires(rest, lh) {
                let k = choose|k: int| 0 <= k < rest.len() && #[trigger] expires(rest[k], lh);
                assert(steps[k + 1] == rest[k]);
                assert(some_tick_expires(steps, lh));
            }
            if some_tick_expires(steps, lh) {
                let k = choose|k: int| 0 <= k < steps.len() && #[trigger] expires(steps[k], lh);
                assert(k != 0);
                assert(rest[k - 1] == steps[k]);
                assert(some_tick_expires(rest, lh));
            }
        }
    } else {
        assert(!some_tick_expires(steps, pins[i].last_hit));
    }
}

/// A pin struck again at `t2`, while still struck from a hit at `t`, starts a
/// fresh cool-down: whatever ticks and unrelated collisions follow, it stays
/// struck with its last hit at `t2` until a tick comes more than the
/// cool-down after `t2`, and is idle from then on.
pub proof fn lemma_restrike_restarts_cool_down(
    pins: Seq<Pin>,
    i: int,
    t: u64,
    a: u64,
    b: u64,
    t2: u64,
    rest: Seq<TrackerStep>,
)
    requires
        0 <= i < pins.len(),
        pins[i].last_hit == Some(t),
        t <= t2,
        t2 - t < COOL_DOWN_MS,
        touches(pins[i], a, b),
        forall|k: int| 0 <= k < rest.len() ==> !strikes_body(#[trigger] rest[k], pins[i].body),
    ensures
        ({
            let after = run(pins, seq![TrackerStep::Collision { a, b, now: t2 }].add(rest));
            &&& after[i].last_hit == (if some_tick_expires(rest, Some(t2)) {
                None
            } else {
                Some(t2)
            })
            &&& look_of(after[i]) == (if some_tick_expires(rest, Some(t2)) {
                PinLook::Idle
            } else {
                PinLook::Struck
            })
        }),
{
    let s = TrackerStep::Collision { a, b, now: t2 };
    let steps = seq![s].add(rest);
    let next = strike_all(pins, a, b, t2);
    assert(steps[0] == s);
    assert(steps.drop_first() =~= rest);
    assert(run(pins, steps) == run(next, rest));
    assert(next[i].last_hit == Some(t2));
    lemma_cool_down_ends(next, rest, i);
}

/// A collision in which no pin's body takes part changes no pin.
pub proof fn lemma_foreign_collision(pins: Seq<Pin>, a: u64, b: u64, now: u64)
    requires
        forall|i: int| 0 <= i < pins.len() ==> !touches(#[trigger] pins[i], a, b),
    ensures
        strike_all(pins, a, b, now) == pins,
{
    assert(strike_all(pins, a, b, now) =~= pins);
}

/// Collision events in which no pin's body takes part change no pin.
pub proof fn lemma_foreign_events(pins: Seq<Pin>, events: Seq<CollisionEvent>, now: u64)
    requires
        forall|i: int, k: int|
            0 <= i < pins.len() && 0 <= k < events.len() ==> !starts_touching(
                #[trigger] events[k],
                #[trigger] pins[i],
            ),
    ensures
        handle_events(pins, events, now) == pins,
{
    assert(handle_events(pins, events, now) =~= pins);
}

} // verus!
