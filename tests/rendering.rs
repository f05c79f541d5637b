use raycaster::camera::Camera;
use raycaster::fixed::ONE;
use raycaster::framebuffer::{blend_pixel, Rgba};
use raycaster::raycasting::{cast_ray, Dir, Ray};
use raycaster::renderer::Renderer;
use raycaster::scene::render_scene;
use raycaster::sprites::{sort_sprites, update_distances, Sprite};
use raycaster::world::{ConfigError, WorldGrid};

fn fixed(v: f64) -> i64 {
    (v * ONE as f64).round() as i64
}

fn unit(angle: f64) -> Dir {
    Dir { x: fixed(angle.cos()), y: fixed(angle.sin()) }
}

fn uniform_texture(c: (u8, u8, u8, u8)) -> Vec<u8> {
    let mut t = Vec::new();
    for _ in 0..64 * 64 {
        t.push(c.0);
        t.push(c.1);
        t.push(c.2);
        t.push(c.3);
    }
    t
}

fn bordered_box(n: usize) -> WorldGrid {
    let mut tiles = vec![0u8; n * n];
    for i in 0..n {
        tiles[i] = 1;
        tiles[(n - 1) * n + i] = 1;
        tiles[i * n] = 1;
        tiles[i * n + n - 1] = 1;
    }
    WorldGrid::new(n, n, tiles).unwrap()
}

/// One direction per ray column, evenly spaced in angle across the view.
fn column_dirs(heading: f64, fov: f64, count: usize) -> Vec<Dir> {
    (0..count)
        .map(|i| unit(heading - fov / 2.0 + (i as f64 / count as f64) * fov))
        .collect()
}

fn camera(grid: &WorldGrid, x: f64, y: f64, heading: f64, fov: f64, screen_width: usize) -> Camera {
    let f = (fov / 2.0).tan();
    let plane = Dir { x: fixed(-heading.sin() * f), y: fixed(heading.cos() * f) };
    Camera::new(grid, fixed(x), fixed(y), unit(heading), plane, column_dirs(heading, fov, screen_width / 6))
        .unwrap()
}

fn pixel(r: &Renderer, x: usize, y: usize) -> (u8, u8, u8, u8) {
    let i = (y * r.screen_width + x) * 4;
    (r.framebuffer[i], r.framebuffer[i + 1], r.framebuffer[i + 2], r.framebuffer[i + 3])
}

#[test]
fn opaque_source_replaces_destination() {
    let src = Rgba { r: 200, g: 100, b: 50, a: 255 };
    for dst in [Rgba { r: 0, g: 0, b: 0, a: 0 }, Rgba { r: 9, g: 250, b: 77, a: 255 }, Rgba { r: 1, g: 2, b: 3, a: 128 }] {
        assert_eq!(blend_pixel(dst, src), src);
    }
}

#[test]
fn transparent_source_keeps_destination() {
    let src = Rgba { r: 200, g: 100, b: 50, a: 0 };
    for dst in [Rgba { r: 0, g: 0, b: 0, a: 0 }, Rgba { r: 9, g: 250, b: 77, a: 255 }, Rgba { r: 1, g: 2, b: 3, a: 128 }] {
        assert_eq!(blend_pixel(dst, src), dst);
    }
}

#[test]
fn half_transparent_white_over_black() {
    let dst = Rgba { r: 0, g: 0, b: 0, a: 255 };
    let src = Rgba { r: 255, g: 255, b: 255, a: 128 };
    assert_eq!(blend_pixel(dst, src), Rgba { r: 128, g: 128, b: 128, a: 255 });
}

#[test]
fn blend_over_empty_destination_keeps_source_colour() {
    let dst = Rgba { r: 90, g: 90, b: 90, a: 0 };
    let src = Rgba { r: 100, g: 50, b: 25, a: 51 };
    assert_eq!(blend_pixel(dst, src), Rgba { r: 100, g: 50, b: 25, a: 51 });
}

#[test]
fn grid_configuration_errors() {
    assert_eq!(WorldGrid::new(0, 3, vec![]).err(), Some(ConfigError::EmptyGrid));
    assert_eq!(WorldGrid::new(3, 0, vec![]).err(), Some(ConfigError::EmptyGrid));
    assert_eq!(WorldGrid::new(2_000_000, 1, vec![0; 2_000_000]).err(), Some(ConfigError::GridTooLarge));
    assert!(WorldGrid::new(2000, 1, vec![0; 2000]).is_ok());
    assert_eq!(WorldGrid::new(2, 2, vec![0; 3]).err(), Some(ConfigError::TileCountMismatch));
    let g = WorldGrid::new(2, 3, vec![0; 6]).unwrap();
    assert_eq!((g.width, g.height), (2, 3));
}

#[test]
fn screen_size_errors() {
    assert_eq!(Renderer::new(0, 10).err(), Some(ConfigError::BadScreenSize));
    assert_eq!(Renderer::new(10, 0).err(), Some(ConfigError::BadScreenSize));
    assert_eq!(Renderer::new(4294967296, 10).err(), Some(ConfigError::BadScreenSize));
    assert_eq!(Renderer::new(4294967295, 4294967295).err(), Some(ConfigError::BadScreenSize));
    let wide = Renderer::new(5000, 10).unwrap();
    assert_eq!(wide.framebuffer.len(), 200000);
    let r = Renderer::new(4, 3).unwrap();
    assert_eq!(r.framebuffer.len(), 48);
    assert_eq!((r.texture_width, r.texture_height), (64, 64));
}

#[test]
fn camera_configuration_errors() {
    let g = WorldGrid::starter_level();
    let east = Dir { x: ONE, y: 0 };
    let plane = Dir { x: 0, y: 37837 };
    assert_eq!(
        Camera::new(&g, 9 * ONE, ONE, east, plane, vec![]).err(),
        Some(ConfigError::CameraOutsideGrid)
    );
    assert_eq!(
        Camera::new(&g, -1, ONE, east, plane, vec![]).err(),
        Some(ConfigError::CameraOutsideGrid)
    );
    assert_eq!(
        Camera::new(&g, ONE, ONE, east, east, vec![]).err(),
        Some(ConfigError::DegenerateCamera)
    );
    assert_eq!(
        Camera::new(&g, ONE, ONE, east, plane, vec![Dir { x: 0, y: 0 }]).err(),
        Some(ConfigError::DegenerateCamera)
    );
    assert!(Camera::new(&g, ONE, ONE, east, plane, vec![east]).is_ok());
}

#[test]
fn collision_follows_tile_one_and_grid_edge() {
    let g = WorldGrid::starter_level();
    assert!(g.is_blocked(ONE / 2, ONE / 2));
    assert!(!g.is_blocked(fixed(3.5), fixed(3.5)));
    assert!(!g.is_blocked(fixed(2.5), fixed(2.5)));
    assert!(g.is_blocked(-1, fixed(3.5)));
    assert!(g.is_blocked(8 * ONE, fixed(3.5)));
    assert_eq!(g.tile_at(4, 2), Some(3));
    assert_eq!(g.tile_at(8, 2), None);
}

#[test]
fn ray_straight_down_the_corridor() {
    let g = WorldGrid::starter_level();
    let r = cast_ray(&g, fixed(3.5), fixed(3.5), Dir { x: ONE, y: 0 });
    assert_eq!(r, Ray::new(229376, 32768, true, true, 1));
}

#[test]
fn ray_north_strikes_second_wall_kind() {
    let g = WorldGrid::starter_level();
    let r = cast_ray(&g, fixed(2.5), fixed(3.5), Dir { x: 0, y: -ONE });
    assert_eq!(r, Ray::new(32768, 32768, false, true, 2));
}

#[test]
fn texture_coordinate_is_fraction_of_hit_y() {
    let g = WorldGrid::starter_level();
    // From (3.5, 3.5) the ray climbs half a cell per cell and meets x = 7 at y = 5.25.
    let r = cast_ray(&g, fixed(3.5), fixed(3.5), Dir { x: ONE, y: ONE / 2 });
    assert!(r.vertical_hit);
    assert_eq!(r.distance, 229376);
    assert_eq!(r.texture_coord, 16384);
    assert_eq!(r.texture_id, 1);
}

#[test]
fn texture_coordinate_is_fraction_of_hit_x() {
    let g = WorldGrid::starter_level();
    // Going north from (4.75, 3.5), the ray meets tile 3 at y = 3 with x = 4.75.
    let r = cast_ray(&g, fixed(4.75), fixed(3.5), Dir { x: 0, y: -ONE });
    assert!(!r.vertical_hit);
    assert_eq!(r.texture_coord, 49152);
    assert_eq!(r.texture_id, 3);
}

#[test]
fn corner_tie_gives_finite_positive_distance() {
    let g = WorldGrid::starter_level();
    let r = cast_ray(&g, fixed(3.5), fixed(3.5), Dir { x: ONE, y: ONE });
    assert!(r.hit);
    assert!(!r.vertical_hit);
    assert_eq!(r.distance, 229376);
}

#[test]
fn rays_in_every_direction_hit_a_wall() {
    let g = bordered_box(8);
    let open = WorldGrid::new(5, 4, vec![0; 20]).unwrap();
    for (x, y) in [(1.5, 1.5), (3.5, 3.5), (6.2, 1.1), (1.01, 6.99), (4.0, 4.0)] {
        for k in 0..720 {
            let a = k as f64 * std::f64::consts::PI / 360.0;
            let d = unit(a);
            if d.x == 0 && d.y == 0 {
                continue;
            }
            let r = cast_ray(&g, fixed(x), fixed(y), d);
            assert!(r.hit && r.texture_id == 1);
            assert!(r.distance > 0 && r.distance <= 8 * ONE * 2);
            assert!(0 <= r.texture_coord && r.texture_coord < ONE);
            if x < 5.0 && y < 4.0 {
                let r = cast_ray(&open, fixed(x), fixed(y), d);
                assert!(r.hit && r.texture_id == 0);
            }
        }
    }
}

#[test]
fn edge_columns_are_farther_than_centre_column() {
    let g = bordered_box(8);
    let fov = std::f64::consts::PI / 3.0;
    let dirs = column_dirs(0.0, fov, 240 / 6);
    assert_eq!(dirs.len(), 40);
    let dist: Vec<i64> = dirs.iter().map(|d| cast_ray(&g, fixed(3.5), fixed(3.5), *d).distance).collect();
    assert_eq!(dist[20], 229376);
    assert!(dist[0] > dist[20]);
    assert!(dist[39] > dist[20]);
    // Both edge rays meet the x = 7 border: 3.5 cells over cos of their angle.
    assert_eq!(dirs[0], Dir { x: 56756, y: -32768 });
    assert_eq!(dirs[39], Dir { x: 57594, y: 31271 });
    assert_eq!(dist[0], 264859);
    assert_eq!(dist[39], 261006);
    for i in [0, 39] {
        let r = cast_ray(&g, fixed(3.5), fixed(3.5), dirs[i]);
        assert!(r.hit && r.vertical_hit && r.texture_id == 1);
    }
}

#[test]
fn obstruction_sets_exact_side_distance() {
    // A pillar in cell (4, 2): the leftmost column, 30 degrees left of
    // straight ahead, meets its lower face after half a cell in y.
    let mut tiles = bordered_box(8).tiles;
    tiles[2 * 8 + 4] = 2;
    let g = WorldGrid::new(8, 8, tiles).unwrap();
    let d = unit(-std::f64::consts::PI / 6.0);
    assert_eq!(d, Dir { x: 56756, y: -32768 });
    let r = cast_ray(&g, fixed(3.5), fixed(3.5), d);
    assert_eq!(r, Ray::new(ONE, 23988, false, true, 2));
}

#[test]
fn clear_zeroes_every_byte() {
    let mut r = Renderer::new(5, 4).unwrap();
    r.fill_background();
    r.clear_framebuffer();
    assert!(r.framebuffer.iter().all(|b| *b == 0));
}

#[test]
fn background_is_ceiling_above_floor_below() {
    let mut r = Renderer::new(5, 4).unwrap();
    r.fill_background();
    assert_eq!(pixel(&r, 0, 0), (50, 50, 50, 255));
    assert_eq!(pixel(&r, 4, 1), (50, 50, 50, 255));
    assert_eq!(pixel(&r, 0, 2), (100, 100, 100, 255));
    assert_eq!(pixel(&r, 4, 3), (100, 100, 100, 255));
}

#[test]
fn draw_rect_is_clipped_to_the_screen() {
    let mut r = Renderer::new(10, 10).unwrap();
    r.draw_rect(8, 8, 5, 5, Some((1, 2, 3)));
    r.draw_rect(0, 0, 2, 1, None);
    assert_eq!(pixel(&r, 8, 8), (1, 2, 3, 255));
    assert_eq!(pixel(&r, 9, 9), (1, 2, 3, 255));
    assert_eq!(pixel(&r, 7, 9), (0, 0, 0, 0));
    assert_eq!(pixel(&r, 1, 0), (0, 0, 0, 255));
    assert_eq!(pixel(&r, 2, 0), (0, 0, 0, 0));
    r.draw_rect(20, 20, 3, 3, Some((9, 9, 9)));
    assert_eq!(r.framebuffer.iter().filter(|b| **b == 9).count(), 0);
}

#[test]
fn texture_lookup_and_missing_texture() {
    let mut r = Renderer::new(4, 4).unwrap();
    assert_eq!(r.get_texture_color_rgb(0, 0, 0), (0, 0, 0));
    assert!(!r.add_texture(vec![1, 2, 3]));
    let mut t = uniform_texture((0, 0, 0, 0));
    t[4] = 9;
    t[5] = 8;
    t[6] = 7;
    t[7] = 6;
    assert!(r.add_texture(t));
    assert_eq!(r.get_texture_color_rgb(0, 1, 0), (9, 8, 7));
    assert_eq!(r.get_texture_color_rgb(0, 0, 64), (0, 0, 0));
    assert_eq!(r.get_texture_color_rgb(1, 1, 0), (0, 0, 0));
}

#[test]
fn wall_column_fills_its_strip() {
    let mut r = Renderer::new(12, 20).unwrap();
    assert!(r.add_texture(uniform_texture((10, 20, 30, 255))));
    r.draw_wall_column(1, Ray::new(2 * ONE, 0, true, true, 1));
    for x in 0..12 {
        for y in 0..20 {
            let inside = (6..12).contains(&x) && (5..15).contains(&y);
            let want = if inside { (10, 20, 30, 255) } else { (0, 0, 0, 0) };
            assert_eq!(pixel(&r, x, y), want, "pixel {} {}", x, y);
        }
    }
}

#[test]
fn wall_without_texture_is_black() {
    let mut r = Renderer::new(6, 20).unwrap();
    r.draw_wall_column(0, Ray::new(2 * ONE, 0, true, false, 0));
    assert_eq!(pixel(&r, 0, 10), (0, 0, 0, 255));
}

#[test]
fn distances_then_far_to_near_order() {
    let g = WorldGrid::starter_level();
    let cam = Camera::new(&g, fixed(1.5), fixed(3.5), Dir { x: ONE, y: 0 }, Dir { x: 0, y: 37837 }, vec![]).unwrap();
    let mut s = vec![
        Sprite { x: fixed(3.5), y: fixed(3.5), texture_id: 2, distance: 0 },
        Sprite { x: fixed(1.5), y: fixed(6.5), texture_id: 1, distance: 0 },
        Sprite { x: fixed(6.5), y: fixed(3.5), texture_id: 1, distance: 0 },
    ];
    update_distances(&cam, &mut s);
    assert_eq!(s[0].distance, 4 << 32);
    assert_eq!(s[1].distance, 9 << 32);
    assert_eq!(s[2].distance, 25 << 32);
    sort_sprites(&mut s);
    let d: Vec<u128> = s.iter().map(|p| p.distance).collect();
    assert_eq!(d, vec![25 << 32, 9 << 32, 4 << 32]);
}

fn sprite_stage() -> (WorldGrid, Renderer, Camera) {
    let g = WorldGrid::starter_level();
    let mut r = Renderer::new(60, 40).unwrap();
    assert!(r.add_texture(uniform_texture((255, 0, 0, 255))));
    assert!(r.add_texture(uniform_texture((0, 255, 0, 255))));
    r.fill_background();
    let cam = Camera::new(&g, fixed(1.5), fixed(3.5), Dir { x: ONE, y: 0 }, Dir { x: 0, y: 37837 }, vec![]).unwrap();
    (g, r, cam)
}

#[test]
fn nearer_sprite_wins_whatever_the_list_order() {
    let far = Sprite { x: fixed(6.5), y: fixed(3.5), texture_id: 1, distance: 0 };
    let near = Sprite { x: fixed(3.5), y: fixed(3.5), texture_id: 2, distance: 0 };
    for list in [vec![far, near], vec![near, far]] {
        let (_, mut r, cam) = sprite_stage();
        let mut sprites = list;
        r.render_sprites(&cam, &mut sprites);
        assert_eq!(sprites[0].texture_id, 1);
        assert_eq!(sprites[1].texture_id, 2);
        // Both cover the centre; the near one is 20 pixels tall, the far one 8.
        assert_eq!(pixel(&r, 30, 20), (0, 255, 0, 255));
        assert_eq!(pixel(&r, 20, 10), (0, 255, 0, 255));
        assert_eq!(pixel(&r, 40, 20), (100, 100, 100, 255));
        assert_eq!(pixel(&r, 30, 9), (50, 50, 50, 255));
    }
}

#[test]
fn far_sprite_alone_has_its_own_size() {
    let (_, mut r, cam) = sprite_stage();
    let mut sprites = vec![Sprite { x: fixed(6.5), y: fixed(3.5), texture_id: 1, distance: 0 }];
    r.render_sprites(&cam, &mut sprites);
    assert_eq!(pixel(&r, 26, 16), (255, 0, 0, 255));
    assert_eq!(pixel(&r, 33, 23), (255, 0, 0, 255));
    assert_eq!(pixel(&r, 25, 16), (50, 50, 50, 255));
    assert_eq!(pixel(&r, 34, 23), (100, 100, 100, 255));
}

#[test]
fn sprite_behind_camera_draws_nothing() {
    let (_, mut r, cam) = sprite_stage();
    let before = r.framebuffer.clone();
    r.draw_sprite(&cam, Sprite { x: fixed(0.5), y: fixed(3.5), texture_id: 1, distance: 0 });
    assert_eq!(r.framebuffer, before);
    r.draw_sprite(&cam, Sprite { x: fixed(1.5), y: fixed(5.5), texture_id: 1, distance: 0 });
    assert_eq!(r.framebuffer, before);
}

#[test]
fn sprite_with_unknown_texture_is_skipped() {
    let (_, mut r, cam) = sprite_stage();
    let before = r.framebuffer.clone();
    let mut sprites = vec![
        Sprite { x: fixed(3.5), y: fixed(3.5), texture_id: 7, distance: 0 },
        Sprite { x: fixed(4.5), y: fixed(3.5), texture_id: 0, distance: 0 },
    ];
    r.render_sprites(&cam, &mut sprites);
    assert_eq!(r.framebuffer, before);
}

#[test]
fn translucent_sprite_blends_with_background() {
    let (_, mut r, cam) = sprite_stage();
    assert!(r.add_texture(uniform_texture((255, 255, 255, 128))));
    r.draw_sprite(&cam, Sprite { x: fixed(3.5), y: fixed(3.5), texture_id: 3, distance: 0 });
    // 128/255 white over the floor grey 100: (255*128*255 + 100*255*127) / 65025 = 177.
    assert_eq!(pixel(&r, 30, 25), (177, 177, 177, 255));
}

#[test]
fn full_frame_without_sprites_is_opaque() {
    let g = WorldGrid::starter_level();
    let mut r = Renderer::new(240, 60).unwrap();
    assert!(r.add_texture(uniform_texture((200, 10, 10, 255))));
    let cam = camera(&g, 3.5, 3.5, 0.0, std::f64::consts::PI / 3.0, 240);
    let mut sprites: Vec<Sprite> = vec![];
    render_scene(&g, &cam, &mut r, &mut sprites);
    for i in 0..240 * 60 {
        assert_eq!(r.framebuffer[i * 4 + 3], 255);
    }
    // The centre column looks 3.5 cells down the corridor at a wall of code 1.
    assert_eq!(pixel(&r, 120, 30), (200, 10, 10, 255));
    assert_eq!(pixel(&r, 120, 0), (50, 50, 50, 255));
    assert_eq!(pixel(&r, 120, 59), (100, 100, 100, 255));
}

#[test]
fn full_frame_with_translucent_sprite_stays_opaque() {
    let g = WorldGrid::starter_level();
    let mut r = Renderer::new(240, 60).unwrap();
    assert!(r.add_texture(uniform_texture((200, 10, 10, 255))));
    assert!(r.add_texture(uniform_texture((0, 0, 255, 60))));
    let cam = camera(&g, 3.5, 3.5, 0.0, std::f64::consts::PI / 3.0, 240);
    let mut sprites = vec![Sprite { x: fixed(5.5), y: fixed(3.5), texture_id: 2, distance: 0 }];
    render_scene(&g, &cam, &mut r, &mut sprites);
    assert!((0..240 * 60).all(|i| r.framebuffer[i * 4 + 3] == 255));
    assert_eq!(sprites[0].distance, 4 << 32);
}

#[test]
fn ray_leaving_the_grid_counts_as_a_wall_hit() {
    let g = WorldGrid::starter_level();
    // From inside the left border cell, facing west: the next cell is outside.
    let r = cast_ray(&g, fixed(0.5), fixed(3.5), Dir { x: -ONE, y: 0 });
    assert_eq!(r, Ray::new(32768, 32768, true, true, 0));
}

#[test]
fn wide_grid_ray_runs_to_its_far_edge() {
    let g = WorldGrid::new(2000, 1, vec![0; 2000]).unwrap();
    let r = cast_ray(&g, fixed(0.5), fixed(0.5), Dir { x: ONE, y: 0 });
    assert!(r.hit && r.vertical_hit && r.texture_id == 0);
    assert_eq!(r.distance, fixed(1999.5));
}

#[test]
fn equal_distances_keep_their_order() {
    let g = WorldGrid::starter_level();
    let cam = Camera::new(&g, fixed(3.5), fixed(3.5), Dir { x: ONE, y: 0 }, Dir { x: 0, y: 37837 }, vec![]).unwrap();
    let mut s = vec![
        Sprite { x: fixed(5.5), y: fixed(3.5), texture_id: 1, distance: 0 },
        Sprite { x: fixed(3.5), y: fixed(6.5), texture_id: 2, distance: 0 },
        Sprite { x: fixed(1.5), y: fixed(3.5), texture_id: 3, distance: 0 },
        Sprite { x: fixed(3.5), y: fixed(0.5), texture_id: 4, distance: 0 },
    ];
    update_distances(&cam, &mut s);
    sort_sprites(&mut s);
    let ids: Vec<u8> = s.iter().map(|p| p.texture_id).collect();
    assert_eq!(ids, vec![2, 4, 1, 3]);
}

#[test]
fn far_sprites_use_wide_coordinates() {
    let g = WorldGrid::starter_level();
    let cam = Camera::new(&g, fixed(1.5), fixed(3.5), Dir { x: ONE, y: 0 }, Dir { x: 0, y: 37837 }, vec![]).unwrap();
    let far = 1i64 << 61;
    let mut s = vec![
        Sprite { x: far, y: fixed(3.5), texture_id: 1, distance: 0 },
        Sprite { x: fixed(3.5), y: fixed(3.5), texture_id: 2, distance: 0 },
    ];
    let (_, mut r, _) = sprite_stage();
    r.render_sprites(&cam, &mut s);
    let dx = (far - fixed(1.5)) as u128;
    assert_eq!(s[0].distance, dx * dx);
    assert_eq!(pixel(&r, 30, 20), (0, 255, 0, 255));
}
