use project_mouse::motion::{vary, xorshift, Motion};

fn cycle_sum(m: Motion, distance: i32) -> (i32, i32) {
    (0..m.steps()).fold((0, 0), |(x, y), i| {
        let (dx, dy) = m.step(i, distance);
        (x + dx, y + dy)
    })
}

/// The property the whole module exists for: a full cycle puts the cursor back.
#[test]
fn every_pattern_returns_to_its_origin() {
    for m in [Motion::Virtual, Motion::Line, Motion::Square, Motion::Circle] {
        assert_eq!(cycle_sum(m, 40), (0, 0), "{m:?} did not close its cycle");
    }
}

#[test]
fn the_default_motion_never_moves_the_cursor() {
    assert_eq!(Motion::default(), Motion::Virtual);
    for i in 0..10 {
        assert_eq!(Motion::Virtual.step(i, 500), (0, 0));
    }
}

#[test]
fn a_square_walks_its_four_sides_in_order() {
    let m = Motion::Square;
    assert_eq!(m.step(0, 10), (10, 0));
    assert_eq!(m.step(1, 10), (0, 10));
    assert_eq!(m.step(2, 10), (-10, 0));
    assert_eq!(m.step(3, 10), (0, -10));
}

#[test]
fn the_step_index_wraps_so_a_long_idle_keeps_cycling() {
    let m = Motion::Square;
    assert_eq!(m.step(4, 10), m.step(0, 10));
    assert_eq!(m.step(4001, 10), m.step(1, 10));
}

#[test]
fn zero_distance_moves_nothing() {
    for m in [Motion::Line, Motion::Square, Motion::Circle] {
        for i in 0..m.steps() {
            assert_eq!(m.step(i, 0), (0, 0), "{m:?} moved with distance 0");
        }
    }
}

#[test]
fn variation_of_zero_percent_is_the_identity() {
    for seed in [0, 1, 7, 999_999] {
        assert_eq!(vary(60, 0, seed), 60);
    }
}

#[test]
fn variation_stays_within_the_requested_band() {
    // +/-25% of 60 is [45, 75].
    for seed in 0..500 {
        let v = vary(60, 25, seed);
        assert!((45..=75).contains(&v), "seed {seed} produced {v}, outside +/-25%");
    }
}

#[test]
fn variation_actually_varies() {
    let values: std::collections::HashSet<u32> = (0..50).map(|s| vary(60, 25, s)).collect();
    assert!(values.len() > 5, "only {} distinct values", values.len());
}

/// An interval of zero would be a busy loop, so the floor is load-bearing, not cosmetic.
#[test]
fn variation_never_returns_zero() {
    for seed in 0..500 {
        assert!(vary(1, 100, seed) >= 1);
    }
}

#[test]
fn the_circle_rounds_toward_zero_and_closes() {
    assert_eq!(Motion::Circle.step(0, 10), (7, 3));
    assert_eq!(Motion::Circle.step(3, 10), (-7, 3));
    assert_eq!(Motion::Circle.step(4, 10), (-7, -3));
    assert_eq!(Motion::Circle.step(0, -15), (-10, -4));
    assert_eq!(cycle_sum(Motion::Circle, -15), (0, 0));
    assert_eq!(cycle_sum(Motion::Circle, 13), (0, 0));
}

#[test]
fn a_line_goes_out_and_back() {
    assert_eq!(Motion::Line.step(0, 9), (9, 0));
    assert_eq!(Motion::Line.step(1, 9), (-9, 0));
    assert_eq!(Motion::Line.steps(), 2);
}

#[test]
fn xorshift_is_the_classic_mix() {
    assert_eq!(xorshift(0), 270369);
    assert_eq!(xorshift(1), 270369);
    assert_eq!(xorshift(2), 811107);
}

#[test]
fn variation_of_zero_is_zero_and_percent_is_capped() {
    assert_eq!(vary(0, 50, 3), 0);
    for seed in 0..200 {
        let v = vary(10, 500, seed);
        assert!((1..=20).contains(&v));
    }
}

#[test]
fn variation_saturates_instead_of_wrapping() {
    let v = vary(u32::MAX, 50, 0x8000_0000);
    assert!(v >= u32::MAX - u32::MAX / 2, "{v} fell out of the band");
    for seed in 0..200u32 {
        let v = vary(u32::MAX - 3, 100, seed.wrapping_mul(2_654_435_761));
        assert!(v >= 1);
    }
}
