use snake::interval::{Interval, TickDecision};
use snake::rng::Rng;
use snake::vector::Vector2d;
use snake::world::{replay, Event, KeyCode, World};

fn events(spec: &str) -> Vec<Event> {
    spec.split_whitespace()
        .map(|w| match w {
            "U" => Event::Key(KeyCode::Up),
            "D" => Event::Key(KeyCode::Down),
            "L" => Event::Key(KeyCode::Left),
            "R" => Event::Key(KeyCode::Right),
            "T" => Event::Tick,
            other => panic!("unknown event {}", other),
        })
        .collect()
}

fn ticks(n: usize) -> String {
    vec!["T"; n].join(" ")
}

#[test]
fn vector_add_is_componentwise() {
    let a = Vector2d::new(3, -4);
    let b = Vector2d::new(-1, 7);
    assert_eq!(a.add(b), Vector2d::new(2, 3));
    let mut c = a;
    c.add_assign(b);
    assert_eq!(c, Vector2d::new(2, 3));
}

#[test]
fn rng_golden_sequence_from_42() {
    let mut r = Rng::new(42);
    assert_eq!(r.gen(), 1250496027);
    assert_eq!(r.gen(), 1116302264);
    assert_eq!(r.gen(), 1000676753);
    let mut again = Rng::new(42);
    assert_eq!([again.gen(), again.gen(), again.gen()], [1250496027, 1116302264, 1000676753]);
}

#[test]
fn rng_from_epoch_secs_adds_offset_mod_2_31() {
    let mut r = Rng::from_epoch_secs(0);
    let mut s = Rng::new(32000);
    assert_eq!(r.gen(), s.gen());
    let mut wrapped = Rng::from_epoch_secs(u64::MAX);
    let mut expect = Rng::new(31999);
    assert_eq!(wrapped.gen(), expect.gen());
    let mut big = Rng::from_epoch_secs((1u64 << 31) + 5);
    let mut expect_big = Rng::new(32005);
    assert_eq!(big.gen(), expect_big.gen());
}

#[test]
fn rng_default_and_seeded_values_stay_below_2_31() {
    let mut d = Rng::default();
    let mut expect = Rng::new(98766677);
    assert_eq!(d.gen(), expect.gen());
    let mut t = Rng::new_seeded();
    for _ in 0..100 {
        assert!(t.gen() < (1u32 << 31));
    }
    let mut m = Rng::new(u32::MAX);
    let v = m.gen();
    assert_eq!(v as u64, (1103515245u64 * u32::MAX as u64 + 12345) % (1u64 << 31));
}

#[test]
fn interval_period_from_fps() {
    assert_eq!(Interval::new(10).frame_duration, 100_000_000);
    assert_eq!(Interval::new(3).frame_duration, 333_333_333);
    assert_eq!(Interval::new(1).last, 0);
}

#[test]
fn interval_pacing_at_ten_per_second() {
    let mut iv = Interval::new(10);
    assert_eq!(iv.elapsed(40_000_000), TickDecision::NotDue(100_000_000));
    assert_eq!(iv.elapsed(99_000_000), TickDecision::NotDue(100_000_000));
    assert_eq!(iv.last, 0);
    assert_eq!(iv.elapsed(100_000_000), TickDecision::NotDue(100_000_000));
    assert_eq!(iv.elapsed(100_000_001), TickDecision::Due);
    assert_eq!(iv.last, 100_000_001);
    assert_eq!(iv.elapsed(150_000_001), TickDecision::NotDue(200_000_001));
    assert_eq!(iv.elapsed(250_000_001), TickDecision::Due);
}

#[test]
fn interval_clock_before_last_tick_and_far_future() {
    let mut iv = Interval::new(10);
    iv.elapsed(500_000_000);
    assert_eq!(iv.elapsed(10), TickDecision::NotDue(100_000_010));
    let mut late = Interval::new(10);
    assert_eq!(late.elapsed(u64::MAX), TickDecision::Due);
    assert_eq!(late.elapsed(u64::MAX), TickDecision::NotDue(u64::MAX));
}

#[test]
fn new_world_is_idle_at_centre() {
    let w = World::new(Rng::new(7));
    assert_eq!(w.head(), Vector2d::new(10, 10));
    assert!(w.body().is_empty());
    assert_eq!(w.direction(), Vector2d::new(0, 0));
    assert_eq!(w.fruit(), Vector2d::new(16, 13));
    assert!(!w.is_over());
}

#[test]
fn input_maps_keys_and_aliases() {
    let mut w = World::new(Rng::new(7));
    w.input(KeyCode::W);
    assert_eq!(w.direction(), Vector2d::new(0, -1));
    w.input(KeyCode::Other);
    assert_eq!(w.direction(), Vector2d::new(0, -1));
    w.input(KeyCode::A);
    assert_eq!(w.direction(), Vector2d::new(-1, 0));
    w.input(KeyCode::S);
    assert_eq!(w.direction(), Vector2d::new(0, 1));
    w.input(KeyCode::D);
    assert_eq!(w.direction(), Vector2d::new(1, 0));
    w.input(KeyCode::Up);
    w.input(KeyCode::Left);
    assert_eq!(w.direction(), Vector2d::new(-1, 0));
}

#[test]
fn idle_tick_changes_nothing() {
    let mut w = World::new(Rng::new(7));
    let fruit = w.fruit();
    assert_eq!(w.update(), (false, false));
    assert_eq!(w.head(), Vector2d::new(10, 10));
    assert!(w.body().is_empty());
    assert_eq!(w.fruit(), fruit);
}

#[test]
fn moving_tick_moves_head() {
    let mut w = World::new(Rng::new(7));
    w.input(KeyCode::Up);
    assert_eq!(w.update(), (true, false));
    assert_eq!(w.head(), Vector2d::new(10, 9));
    assert!(w.body().is_empty());
    assert_eq!(w.fruit(), Vector2d::new(16, 13));
}

#[test]
fn first_tick_eats_adjacent_fruit() {
    let mut w = World::new(Rng::new(24));
    assert_eq!(w.fruit(), Vector2d::new(9, 10));
    w.input(KeyCode::Left);
    assert_eq!(w.update(), (true, false));
    assert_eq!(w.head(), Vector2d::new(9, 10));
    assert_eq!(w.body(), &vec![Vector2d::new(10, 10)]);
    let f = w.fruit();
    assert_ne!(f, Vector2d::new(9, 10));
    assert_ne!(f, Vector2d::new(10, 10));
    assert_eq!(f, Vector2d::new(11, 16));
}

#[test]
fn leaving_the_field_ends_the_game() {
    let mut w = World::new(Rng::new(7));
    w.input(KeyCode::Up);
    for _ in 0..10 {
        assert_eq!(w.update(), (true, false));
    }
    assert_eq!(w.head(), Vector2d::new(10, 0));
    assert_eq!(w.update(), (true, true));
    assert_eq!(w.head(), Vector2d::new(10, -1));
    assert!(w.is_over());
    assert_eq!(w.update(), (false, true));
    assert_eq!(w.head(), Vector2d::new(10, -1));
}

#[test]
fn reversal_into_neck_ends_the_game() {
    let spec = format!("D {} L {} U {} R T L T", ticks(5), ticks(6), ticks(14));
    let w = replay(1, &events(&spec));
    assert!(w.is_over());
    assert_eq!(w.head(), Vector2d::new(4, 1));
    assert_eq!(w.body(), &vec![Vector2d::new(5, 1), Vector2d::new(4, 1)]);
}

#[test]
fn loop_back_into_body_ends_the_game() {
    let spec = format!(
        "D {} L {} U {} R {} D {} L {} U {} R T U T L T",
        ticks(5),
        ticks(6),
        ticks(14),
        ticks(10),
        ticks(18),
        ticks(2),
        ticks(14)
    );
    let before = replay(1, &events(&spec));
    assert!(!before.is_over());
    assert_eq!(before.head(), Vector2d::new(12, 4));
    let mut w = replay(1, &events(&(spec + " D T")));
    assert!(w.is_over());
    assert_eq!(w.head(), Vector2d::new(12, 5));
    assert!(w.body().contains(&w.head()));
    assert_eq!(w.update(), (false, true));
}

#[test]
fn same_seed_same_events_same_game() {
    let spec = format!("D {} L {} U {}", ticks(5), ticks(6), ticks(9));
    let a = replay(1, &events(&spec));
    let b = replay(1, &events(&spec));
    assert_eq!(a.head(), b.head());
    assert_eq!(a.body(), b.body());
    assert_eq!(a.fruit(), b.fruit());
    assert_eq!(a.is_over(), b.is_over());
}

#[test]
fn fruit_stays_off_the_snake_over_a_long_game() {
    let mut w = World::new(Rng::new(1));
    let script = events(&format!("D {} L {} U {} R {}", ticks(5), ticks(6), ticks(14), ticks(10)));
    for e in script {
        match e {
            Event::Key(k) => w.input(k),
            Event::Tick => {
                w.update();
            }
        }
        assert_ne!(w.fruit(), w.head());
        assert!(!w.body().contains(&w.fruit()));
        let f = w.fruit();
        assert!(0 <= f.x && f.x < 20 && 0 <= f.y && f.y < 20);
    }
    assert!(w.body().len() >= 2);
}
