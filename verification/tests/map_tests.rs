use raycaster::color::Rgba;
use raycaster::fixed::{Vec3, ONE};
use raycaster::map::{
    sort_sprites, texel_coord, Entity, Sprite, Texture, TextureRef, World, WorldError,
};

fn texture(id: u32, side: u32) -> Texture {
    let mut data = Vec::new();
    for i in 0..side * side {
        data.push(Rgba { r: i as u8, g: id as u8, b: 0, a: 255 });
    }
    Texture { texture: TextureRef { id, side }, texture_data: data }
}

fn room() -> World {
    let map = vec![
        1, 1, 1, 1, //
        1, 0, 0, 2, //
        1, 0, 0, 1, //
    ];
    World::new(map, 4, vec![texture(7, 2), texture(8, 4)], Vec::new(), Vec::new()).unwrap()
}

fn sprite(dist: i64, x: i64) -> Sprite {
    Sprite { x, y: 0, dist, texture: TextureRef { id: 0, side: 64 } }
}

#[test]
fn new_keeps_what_it_is_given() {
    let sprites = vec![sprite(0, 5)];
    let entities = vec![Entity::Door((0, 2), (1, 3)), Entity::Power((1, 2), (2, 3))];
    let w = World::new(vec![1, 0, 0, 1], 2, vec![texture(3, 1)], sprites.clone(), entities.clone())
        .unwrap();
    assert_eq!(w.world_map, vec![1, 0, 0, 1]);
    assert_eq!(w.columns, 2);
    assert_eq!(w.rows(), 2);
    assert_eq!(w.span(), 4);
    assert_eq!(w.textures.len(), 1);
    assert_eq!(w.sprite_map, sprites);
    assert_eq!(w.entities, entities);
    assert!(w.is_wf());
}

#[test]
fn new_rejects_no_columns() {
    let r = World::new(vec![0, 0], 0, Vec::new(), Vec::new(), Vec::new());
    assert_eq!(r.err(), Some(WorldError::NoColumns));
}

#[test]
fn new_rejects_too_many_columns() {
    let r = World::new(Vec::new(), 1usize << 31, Vec::new(), Vec::new(), Vec::new());
    assert_eq!(r.err(), Some(WorldError::TooLarge));
}

#[test]
fn new_rejects_incomplete_row() {
    let r = World::new(vec![0, 0, 0, 0, 0], 2, Vec::new(), Vec::new(), Vec::new());
    assert_eq!(r.err(), Some(WorldError::Ragged));
}

#[test]
fn new_rejects_bad_textures() {
    let not_a_power = texture(1, 3);
    let r = World::new(vec![0], 1, vec![texture(0, 2), not_a_power], Vec::new(), Vec::new());
    assert_eq!(r.err(), Some(WorldError::BadTexture(1)));

    let mut short = texture(1, 2);
    short.texture_data.pop();
    let r = World::new(vec![0], 1, vec![short], Vec::new(), Vec::new());
    assert_eq!(r.err(), Some(WorldError::BadTexture(0)));

    let empty = Texture { texture: TextureRef { id: 0, side: 0 }, texture_data: Vec::new() };
    let r = World::new(vec![0], 1, vec![empty], Vec::new(), Vec::new());
    assert_eq!(r.err(), Some(WorldError::BadTexture(0)));
}

#[test]
fn new_rejects_wall_without_texture() {
    let r = World::new(vec![0, 1, 2, 1], 2, vec![texture(0, 1)], Vec::new(), Vec::new());
    assert_eq!(r.err(), Some(WorldError::MissingTexture(2)));
}

#[test]
fn new_reports_the_first_failure() {
    // both ragged and short of textures: the row comes first
    let r = World::new(vec![5, 5, 5], 2, Vec::new(), Vec::new(), Vec::new());
    assert_eq!(r.err(), Some(WorldError::Ragged));
    // both a bad texture and a missing one: the texture comes first
    let r = World::new(vec![9], 1, vec![texture(0, 3)], Vec::new(), Vec::new());
    assert_eq!(r.err(), Some(WorldError::BadTexture(0)));
}

#[test]
fn enclosed_means_walls_all_around() {
    let closed = vec![
        1, 2, 1, //
        1, 0, 1, //
        2, 0, 2, //
        1, 1, 1, //
    ];
    let textures = || vec![texture(0, 1), texture(1, 1)];
    let w = World::new(closed.clone(), 3, textures(), Vec::new(), Vec::new()).unwrap();
    assert!(w.is_enclosed());
    // a gap in any of the four sides
    for gap in [1, 3, 5, 8, 10] {
        let mut open = closed.clone();
        open[gap] = 0;
        let w = World::new(open, 3, textures(), Vec::new(), Vec::new()).unwrap();
        assert!(!w.is_enclosed(), "gap at {}", gap);
    }
    // a single row or column is all border
    let w = World::new(vec![1, 1, 1], 3, textures(), Vec::new(), Vec::new()).unwrap();
    assert!(w.is_enclosed());
    let w = World::new(vec![1, 0, 1], 1, textures(), Vec::new(), Vec::new()).unwrap();
    assert!(!w.is_enclosed());
    // no cell, no gap
    let w = World::new(Vec::new(), 3, textures(), Vec::new(), Vec::new()).unwrap();
    assert!(w.is_enclosed());
    // the room lacks its bottom wall
    assert!(!room().is_enclosed());
}

#[test]
fn get_reads_row_then_column() {
    let w = room();
    assert_eq!(w.get(0, 0), 1);
    assert_eq!(w.get(1, 3), 2);
    assert_eq!(w.get(1, 1), 0);
    assert_eq!(w.get(2, 3), 1);
}

#[test]
fn tile_at_is_none_outside_the_grid() {
    let w = room();
    assert_eq!(w.tile_at(1, 3), Some(2));
    assert_eq!(w.tile_at(2, 2), Some(0));
    assert_eq!(w.tile_at(-1, 0), None);
    assert_eq!(w.tile_at(0, -1), None);
    assert_eq!(w.tile_at(3, 0), None);
    assert_eq!(w.tile_at(0, 4), None);
    assert_eq!(w.tile_at(i32::MAX, i32::MAX), None);
    assert_eq!(w.tile_at(i32::MIN, 1), None);
}

#[test]
fn texture_is_code_minus_one() {
    let w = room();
    assert_eq!(w.texture((0, 0)), TextureRef { id: 7, side: 2 });
    assert_eq!(w.texture((1, 3)), TextureRef { id: 8, side: 4 });
}

#[test]
fn change_opens_and_closes_a_door() {
    let mut w = room();
    let far = Vec3 { x: ONE + ONE / 2, y: ONE + ONE / 2, z: 0 };
    // the cell holds 2: it takes the first code of the pair
    w.change(far, (0, 2), (1, 3));
    assert_eq!(w.get(1, 3), 0);
    // it holds the first code now: it takes the second
    w.change(far, (0, 2), (1, 3));
    assert_eq!(w.get(1, 3), 2);
    assert!(w.is_wf());
    assert_eq!(w.world_map, vec![1, 1, 1, 1, 1, 0, 0, 2, 1, 0, 0, 1]);
}

#[test]
fn change_does_not_close_a_door_on_the_camera() {
    let mut w = room();
    let inside = Vec3 { x: ONE + ONE / 2, y: 3 * ONE + 1, z: 0 };
    w.change(inside, (0, 2), (1, 3));
    assert_eq!(w.get(1, 3), 0);
    w.change(inside, (0, 2), (1, 3));
    assert_eq!(w.get(1, 3), 0);
}

#[test]
fn three_sprites_sort_farthest_first() {
    let mut v = vec![sprite(4, 0), sprite(1, 1), sprite(9, 2)];
    sort_sprites(&mut v);
    let dists: Vec<i64> = v.iter().map(|s| s.dist).collect();
    assert_eq!(dists, vec![9, 4, 1]);
    let xs: Vec<i64> = v.iter().map(|s| s.x).collect();
    assert_eq!(xs, vec![2, 0, 1]);
}

#[test]
fn sort_keeps_equal_sprites_in_order() {
    let mut v = vec![sprite(5, 0), sprite(7, 1), sprite(5, 2), sprite(7, 3), sprite(5, 4)];
    sort_sprites(&mut v);
    let xs: Vec<i64> = v.iter().map(|s| s.x).collect();
    assert_eq!(xs, vec![1, 3, 0, 2, 4]);
}

#[test]
fn sort_of_nothing_and_of_one() {
    let mut v: Vec<Sprite> = Vec::new();
    sort_sprites(&mut v);
    assert!(v.is_empty());
    let mut v = vec![sprite(3, 0)];
    sort_sprites(&mut v);
    assert_eq!(v, vec![sprite(3, 0)]);
}

#[test]
fn sort_handles_negative_and_extreme_distances() {
    let mut v = vec![sprite(-1, 0), sprite(i64::MAX, 1), sprite(i64::MIN, 2), sprite(0, 3)];
    sort_sprites(&mut v);
    let xs: Vec<i64> = v.iter().map(|s| s.x).collect();
    assert_eq!(xs, vec![1, 3, 0, 2]);
}

#[test]
fn texture_coordinate_wraps_at_cell_boundaries() {
    // just below a boundary: the last texel
    assert_eq!(texel_coord(3 * ONE - 1, 64), 63);
    assert_eq!(texel_coord((0.999 * 65536.0) as i64, 64), 63);
    // on the boundary: texel 0, not 64
    assert_eq!(texel_coord(3 * ONE, 64), 0);
    assert_eq!(texel_coord(0, 64), 0);
    // half way
    assert_eq!(texel_coord(5 * ONE + ONE / 2, 64), 32);
}

#[test]
fn texture_coordinate_wraps_below_zero() {
    assert_eq!(texel_coord(-1, 64), 63);
    assert_eq!(texel_coord(-ONE, 64), 0);
    assert_eq!(texel_coord(-ONE / 2, 64), 32);
    assert_eq!(texel_coord(-ONE / 2 - 1, 64), 31);
}

#[test]
fn texture_coordinate_for_every_side() {
    for k in 0..16 {
        let side = 1u32 << k;
        assert_eq!(texel_coord(7 * ONE + ONE - 1, side), side - 1);
        assert_eq!(texel_coord(7 * ONE, side), 0);
        assert_eq!(texel_coord(i64::MAX, side), side - 1);
        assert_eq!(texel_coord(i64::MIN, side), 0);
    }
}

#[test]
fn sample_reads_side_times_x_plus_y() {
    let t = texture(0, 4);
    // x in [0.5, 0.75) is texel column 2, y in [0.25, 0.5) is texel row 1
    let c = t.sample(ONE / 2, ONE / 4);
    assert_eq!(c, Rgba { r: 9, g: 0, b: 0, a: 255 });
    let c = t.sample(ONE / 4, ONE / 2);
    assert_eq!(c, Rgba { r: 6, g: 0, b: 0, a: 255 });
    // one cell further on: the same texel
    assert_eq!(t.sample(ONE + ONE / 2, -ONE + ONE / 4), Rgba { r: 9, g: 0, b: 0, a: 255 });
}

#[test]
fn texture_from_an_image_takes_its_pixels_row_by_row() {
    let image = macroquad::texture::Image {
        bytes: vec![1, 2, 3, 4, 5, 6, 7, 8, 9, 10, 11, 12, 13, 14, 15, 16],
        width: 2,
        height: 2,
    };
    let t = Texture::from_image(TextureRef { id: 5, side: 2 }, &image).unwrap();
    assert_eq!(t.texture, TextureRef { id: 5, side: 2 });
    assert_eq!(
        t.texture_data,
        vec![
            Rgba { r: 1, g: 2, b: 3, a: 4 },
            Rgba { r: 5, g: 6, b: 7, a: 8 },
            Rgba { r: 9, g: 10, b: 11, a: 12 },
            Rgba { r: 13, g: 14, b: 15, a: 16 },
        ]
    );
    assert!(t.is_wf());
    // texture coordinates (x, y) read index side * x + y
    assert_eq!(t.sample(ONE / 2, 0), Rgba { r: 9, g: 10, b: 11, a: 12 });
    assert_eq!(t.sample(0, ONE / 2), Rgba { r: 5, g: 6, b: 7, a: 8 });
}

#[test]
fn texture_from_an_image_of_other_shape_is_unsound() {
    let image = macroquad::texture::Image { bytes: vec![0; 24], width: 3, height: 2 };
    let t = Texture::from_image(TextureRef { id: 0, side: 2 }, &image).unwrap();
    assert_eq!(t.texture_data.len(), 6);
    assert!(!t.is_wf());
}

#[test]
fn texture_from_an_image_short_of_bytes_is_refused() {
    let handle = TextureRef { id: 0, side: 2 };
    let short = macroquad::texture::Image { bytes: vec![0; 12], width: 2, height: 2 };
    assert!(Texture::from_image(handle, &short).is_none());
    let long = macroquad::texture::Image { bytes: vec![0; 20], width: 2, height: 2 };
    assert!(Texture::from_image(handle, &long).is_none());
    let empty = macroquad::texture::Image { bytes: Vec::new(), width: 0, height: 7 };
    assert_eq!(Texture::from_image(handle, &empty).unwrap().texture_data.len(), 0);
    // spare bytes short of a pixel do no harm
    let spare = macroquad::texture::Image { bytes: vec![7; 18], width: 2, height: 2 };
    let t = Texture::from_image(handle, &spare).unwrap();
    assert_eq!(t.texture_data, vec![Rgba { r: 7, g: 7, b: 7, a: 7 }; 4]);
}

#[test]
fn texture_soundness_check() {
    assert!(texture(0, 1).is_wf());
    assert!(texture(0, 64).is_wf());
    assert!(!texture(0, 48).is_wf());
    let mut long = texture(0, 2);
    long.texture_data.push(Rgba::black());
    assert!(!long.is_wf());
}
