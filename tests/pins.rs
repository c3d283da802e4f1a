use pinball_pins::layout::{default_layout, LARGE_RADIUS_MM, SMALL_RADIUS_MM};
use pinball_pins::pin::{Pin, PinLook, PinSpec, Point, COOL_DOWN_MS, DEFAULT_RADIUS_MM};
use pinball_pins::tracker::{CollisionEvent, PinTracker};

const BALL: u64 = 1;
const WALL: u64 = 2;

fn body_of(i: usize) -> u64 {
    100 + i as u64
}

fn standard_tracker() -> PinTracker {
    let entries: Vec<(u64, PinSpec)> = default_layout()
        .into_iter()
        .enumerate()
        .map(|(i, s)| (body_of(i), s))
        .collect();
    PinTracker::initialize(&entries)
}

fn spec_at(x: i64, y: i64, radius: Option<u64>) -> PinSpec {
    PinSpec { position: Point { x, y }, radius }
}

#[test]
fn layout_has_the_eight_standard_pins() {
    let l = default_layout();
    let expected = vec![
        spec_at(-200, 350, Some(70)),
        spec_at(200, 350, Some(70)),
        spec_at(150, 200, Some(40)),
        spec_at(-150, 200, Some(40)),
        spec_at(90, 800, None),
        spec_at(-150, 800, None),
        spec_at(170, -10, None),
        spec_at(-200, -10, None),
    ];
    assert_eq!(l, expected);
    assert_eq!(LARGE_RADIUS_MM, 70);
    assert_eq!(SMALL_RADIUS_MM, 40);
}

#[test]
fn initialize_places_idle_pins_with_their_radii() {
    let t = standard_tracker();
    assert_eq!(t.len(), 8);
    let radii: Vec<u64> = t.pins().iter().map(|p| p.radius).collect();
    assert_eq!(radii, vec![70, 70, 40, 40, 50, 50, 50, 50]);
    for i in 0..8 {
        assert_eq!(t.pin(i).body, body_of(i));
        assert_eq!(t.pin(i).last_hit, None);
        assert_eq!(t.look(i), PinLook::Idle);
    }
    assert_eq!(t.pin(6).position, Point { x: 170, y: -10 });
}

#[test]
fn new_pin_takes_default_radius() {
    let p = Pin::new(9, spec_at(3, 4, None));
    assert_eq!(p.radius, DEFAULT_RADIUS_MM);
    assert_eq!(p.radius, 50);
    let q = Pin::new(9, spec_at(3, 4, Some(12)));
    assert_eq!(q.radius, 12);
    assert_eq!(q.position, Point { x: 3, y: 4 });
    assert_eq!(q.look(), PinLook::Idle);
}

#[test]
fn scenario_strike_expire_and_restrike() {
    let mut t = standard_tracker();
    t.on_tick(0);
    t.on_collision_start(BALL, body_of(4), 1000);
    assert_eq!(t.look(4), PinLook::Struck);
    assert_eq!(t.pin(4).last_hit, Some(1000));
    for i in [0usize, 1, 2, 3, 5, 6, 7] {
        assert_eq!(t.look(i), PinLook::Idle);
    }

    let mut expired = standard_tracker();
    expired.on_collision_start(BALL, body_of(4), 1000);
    expired.on_tick(4500);
    assert_eq!(expired.look(4), PinLook::Idle);
    assert_eq!(expired.pin(4).last_hit, None);

    t.on_collision_start(body_of(4), BALL, 3900);
    assert_eq!(t.look(4), PinLook::Struck);
    assert_eq!(t.pin(4).last_hit, Some(3900));
    t.on_tick(4500);
    t.on_tick(6800);
    assert_eq!(t.look(4), PinLook::Struck);
    assert_eq!(t.pin(4).last_hit, Some(3900));
    t.on_tick(7000);
    assert_eq!(t.look(4), PinLook::Idle);
    assert_eq!(t.pin(4).last_hit, None);
}

#[test]
fn cool_down_ends_only_after_three_seconds() {
    let mut t = standard_tracker();
    t.on_collision_start(body_of(0), BALL, 2000);
    t.on_tick(2000 + COOL_DOWN_MS);
    assert_eq!(t.look(0), PinLook::Struck);
    assert_eq!(t.pin(0).last_hit, Some(2000));
    t.on_tick(2001 + COOL_DOWN_MS);
    assert_eq!(t.look(0), PinLook::Idle);
    assert_eq!(t.pin(0).last_hit, None);
}

#[test]
fn tick_before_hit_time_keeps_pin_struck() {
    let mut t = standard_tracker();
    t.on_collision_start(BALL, body_of(2), 5000);
    t.on_tick(100);
    assert_eq!(t.pin(2).last_hit, Some(5000));
}

#[test]
fn restrike_restarts_cool_down() {
    let mut t = standard_tracker();
    t.on_collision_start(BALL, body_of(1), 1000);
    t.on_collision_start(BALL, body_of(1), 2500);
    t.on_tick(4100);
    assert_eq!(t.look(1), PinLook::Struck);
    t.on_tick(5500);
    assert_eq!(t.look(1), PinLook::Struck);
    assert_eq!(t.pin(1).last_hit, Some(2500));
    t.on_tick(5501);
    assert_eq!(t.look(1), PinLook::Idle);
}

#[test]
fn strike_at_time_zero_is_struck() {
    let mut t = standard_tracker();
    t.on_collision_start(BALL, body_of(3), 0);
    assert_eq!(t.pin(3).last_hit, Some(0));
    assert_eq!(t.look(3), PinLook::Struck);
}

#[test]
fn collision_with_no_pin_changes_nothing() {
    let mut t = standard_tracker();
    t.on_collision_start(BALL, body_of(5), 700);
    let before: Vec<Pin> = t.pins().clone();
    t.on_collision_start(BALL, WALL, 900);
    assert_eq!(t.pins(), &before);
    t.on_collision_events(&vec![CollisionEvent::Started(WALL, BALL), CollisionEvent::Started(3, 4)], 950);
    assert_eq!(t.pins(), &before);
}

#[test]
fn stopped_events_change_nothing() {
    let mut t = standard_tracker();
    let before: Vec<Pin> = t.pins().clone();
    t.on_collision_events(&vec![CollisionEvent::Stopped(BALL, body_of(0))], 300);
    assert_eq!(t.pins(), &before);
}

#[test]
fn events_of_one_tick_strike_every_pin_involved() {
    let mut t = standard_tracker();
    let events = vec![
        CollisionEvent::Started(BALL, body_of(6)),
        CollisionEvent::Stopped(BALL, body_of(7)),
        CollisionEvent::Started(body_of(2), BALL),
        CollisionEvent::Started(BALL, body_of(6)),
    ];
    t.on_collision_events(&events, 1234);
    let looks: Vec<PinLook> = (0..8).map(|i| t.look(i)).collect();
    assert_eq!(
        looks,
        vec![
            PinLook::Idle,
            PinLook::Idle,
            PinLook::Struck,
            PinLook::Idle,
            PinLook::Idle,
            PinLook::Idle,
            PinLook::Struck,
            PinLook::Idle,
        ]
    );
    assert_eq!(t.pin(6).last_hit, Some(1234));
    assert_eq!(t.pin(2).last_hit, Some(1234));
}

#[test]
fn geometry_survives_strike_and_reset_cycles() {
    let mut t = standard_tracker();
    let before: Vec<(u64, Point, u64)> = t.pins().iter().map(|p| (p.body, p.position, p.radius)).collect();
    let mut now: u64 = 0;
    for round in 0..5u64 {
        for i in 0..8 {
            now += 250;
            t.on_collision_start(BALL, body_of(i), now);
            t.on_tick(now);
        }
        now += 3500 + round;
        t.on_tick(now);
        for i in 0..8 {
            assert_eq!(t.look(i), PinLook::Idle);
        }
    }
    let after: Vec<(u64, Point, u64)> = t.pins().iter().map(|p| (p.body, p.position, p.radius)).collect();
    assert_eq!(before, after);
}

#[test]
fn find_by_body_gives_first_match() {
    let mut t = PinTracker::new();
    assert_eq!(t.find_by_body(5), None);
    t.add_pin(5, spec_at(0, 0, None));
    t.add_pin(6, spec_at(1, 1, None));
    t.add_pin(6, spec_at(2, 2, None));
    assert_eq!(t.find_by_body(6), Some(1));
    assert_eq!(t.find_by_body(5), Some(0));
    assert_eq!(t.find_by_body(7), None);
}

#[test]
fn pin_steps_directly() {
    let p = Pin::new(10, spec_at(0, 0, None));
    assert!(p.is_touched_by(10, 11));
    assert!(p.is_touched_by(11, 10));
    assert!(!p.is_touched_by(11, 12));
    let s = p.strike(11, 10, 400);
    assert_eq!(s.last_hit, Some(400));
    assert!(!s.cool_down_over(3400));
    assert!(s.cool_down_over(3401));
    assert_eq!(s.tick(3401), p);
    assert_eq!(p.strike(1, 2, 400), p);
}
