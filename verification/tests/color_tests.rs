use raycaster::color::{dim_channel, Rgba};
use raycaster::fixed::ONE;
use raycaster::map::World;

fn empty_world() -> World {
    World::new(vec![0], 1, Vec::new(), Vec::new(), Vec::new()).unwrap()
}

#[test]
fn named_colours() {
    assert_eq!(Rgba::white(), Rgba { r: 255, g: 255, b: 255, a: 255 });
    assert_eq!(Rgba::black(), Rgba { r: 0, g: 0, b: 0, a: 255 });
    assert_eq!(Rgba::night_green(), Rgba { r: 0, g: 226, b: 48, a: 255 });
}

#[test]
fn dim_divides_and_rounds_down() {
    assert_eq!(dim_channel(200, 2 * ONE), 100);
    assert_eq!(dim_channel(201, 2 * ONE), 100);
    assert_eq!(dim_channel(255, 3 * ONE), 85);
    assert_eq!(dim_channel(255, ONE), 255);
    assert_eq!(dim_channel(7, 8 * ONE), 0);
}

#[test]
fn dim_saturates_for_small_divisors() {
    assert_eq!(dim_channel(200, ONE / 2), 255);
    assert_eq!(dim_channel(1, 1), 255);
    assert_eq!(dim_channel(0, 1), 0);
}

#[test]
fn dim_by_zero_and_by_negative() {
    assert_eq!(dim_channel(9, 0), 255);
    assert_eq!(dim_channel(0, 0), 0);
    assert_eq!(dim_channel(255, -ONE), 0);
}

#[test]
fn dim_keeps_alpha() {
    let c = Rgba { r: 100, g: 50, b: 25, a: 77 };
    assert_eq!(c.dim(2 * ONE), Rgba { r: 50, g: 25, b: 12, a: 77 });
}

#[test]
fn shadow_is_two_thirds() {
    let c = Rgba { r: 255, g: 100, b: 1, a: 9 };
    assert_eq!(c.shadow(), Rgba { r: 170, g: 66, b: 0, a: 9 });
}

#[test]
fn shading_off_returns_input_colour() {
    let w = empty_world();
    let c = Rgba { r: 12, g: 34, b: 56, a: 78 };
    for dist in [0, 1, 7, 480, 100_000] {
        assert_eq!(w.floor_shading(c, 530, dist, 5242, false), c);
    }
    for dist in [0i64, 1, ONE, 50 * ONE, i64::MAX] {
        assert_eq!(w.sprite_shading(dist, false, ONE), Rgba::white());
        assert_eq!(w.wall_shading(false, dist, false, false, 2 * ONE), Rgba::white());
        assert_eq!(w.wall_shading(true, dist, false, false, 2 * ONE), Rgba::white());
        assert_eq!(w.wall_shading(false, dist, true, false, 2 * ONE), Rgba::white());
    }
}

#[test]
fn shadows_darken_one_kind_of_face() {
    let w = empty_world();
    assert_eq!(
        w.wall_shading(true, 3 * ONE, true, false, 2 * ONE),
        Rgba { r: 170, g: 170, b: 170, a: 255 }
    );
    assert_eq!(w.wall_shading(false, 3 * ONE, true, false, 2 * ONE), Rgba::white());
}

#[test]
fn dark_wall_shading_divides_by_distance_times_multiplier() {
    let w = empty_world();
    // 255 / (2.5 * 2.0) = 51
    assert_eq!(
        w.wall_shading(false, 5 * ONE / 2, false, true, 2 * ONE),
        Rgba { r: 51, g: 51, b: 51, a: 255 }
    );
    // then two thirds of it on the shadowed faces
    assert_eq!(
        w.wall_shading(true, 5 * ONE / 2, true, true, 2 * ONE),
        Rgba { r: 34, g: 34, b: 34, a: 255 }
    );
    // very near walls saturate at full brightness
    assert_eq!(w.wall_shading(false, ONE / 4, false, true, 2 * ONE), Rgba::white());
}

#[test]
fn dark_floor_shading_divides_by_rows_to_the_edge() {
    let w = empty_world();
    let c = Rgba { r: 200, g: 100, b: 50, a: 255 };
    // (58 - 8) * 0.5 = 25
    assert_eq!(
        w.floor_shading(c, 58, 8, ONE / 2, true),
        Rgba { r: 8, g: 4, b: 2, a: 255 }
    );
    // a row beyond the edge gives a negative divisor
    assert_eq!(
        w.floor_shading(c, 8, 58, ONE / 2, true),
        Rgba { r: 0, g: 0, b: 0, a: 255 }
    );
}

#[test]
fn dark_sprite_shading_divides_by_squared_distance() {
    let w = empty_world();
    assert_eq!(
        w.sprite_shading(4 * ONE, true, ONE),
        Rgba { r: 63, g: 63, b: 63, a: 255 }
    );
}
