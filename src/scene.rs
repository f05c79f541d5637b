//! One frame, start to finish: clear, background, walls, sprites.

use vstd::prelude::*;
use crate::camera::Camera;
use crate::framebuffer::{lemma_blend_onto_opaque_stays_opaque, Rgba};
use crate::raycasting::{cast_ray, cast_result};
use crate::renderer::Renderer;
use crate::sprites::{sorted_far_to_near, ties_kept, with_distance, Sprite};
use crate::walls::COLUMN_WIDTH;
use crate::world::WorldGrid;

verus! {

/// Number of ray columns across a screen `screen_width` pixels wide.
pub open spec fn ray_count(screen_width: int) -> int {
    screen_width / COLUMN_WIDTH as int
}

/// Everything a frame needs: a well-formed grid, camera and renderer, with
/// one ray direction per ray column and the camera inside the grid.
pub open spec fn frame_ready(grid: &WorldGrid, cam: &Camera, r: &Renderer) -> bool {
    &&& grid.wf()
    &&& cam.wf()
    &&& cam.inside(*grid)
    &&& r.wf()
    &&& cam.columns@.len() == ray_count(r.screen_width as int)
}

impl Renderer {
    /// Pixel (x, y) after the wall pass over `under`: the wall strip of the
    /// ray column that holds x, where that strip covers the pixel.
    pub open spec fn walls_pixel(&self, grid: &WorldGrid, cam: &Camera, x: int, y: int, under: Rgba) -> Rgba {
        let col = x / COLUMN_WIDTH as int;
        if col < cam.columns@.len() {
            let ray = cast_result(*grid, cam.x as int, cam.y as int, cam.columns@[col]);
            if self.in_wall_strip(col, ray, x, y) { self.wall_color(ray, y) } else { under }
        } else {
            under
        }
    }

    /// The wall pass: one ray per ray column, each drawn as a textured strip.
    pub fn render_walls(&mut self, grid: &WorldGrid, cam: &Camera)
        requires
            frame_ready(grid, cam, old(self)),
        ensures
            final(self).wf(),
            final(self).same_setup(old(self)),
            forall|x: int, y: int|
                #![trigger final(self).pixel(x, y)]
                final(self).on_screen(x, y) ==> final(self).pixel(x, y) == old(self).walls_pixel(
                    grid,
                    cam,
                    x,
                    y,
                    old(self).pixel(x, y),
                ),
    {
        let ghost old_self = *old(self);
        let n = cam.columns.len();
        let mut i: usize = 0;
        while i < n
            invariant
                self.wf(),
                self.same_setup(&old_self),
                frame_ready(grid, cam, &old_self),
                n == cam.columns@.len(),
                i <= n,
                forall|x: int, y: int|
                    #![trigger self.pixel(x, y)]
                    self.on_screen(x, y) ==> self.pixel(x, y) == (if x / COLUMN_WIDTH as int >= i {
                        old_self.pixel(x, y)
                    } else {
                        old_self.walls_pixel(grid, cam, x, y, old_self.pixel(x, y))
                    }),
            decreases n - i,
        {
            let d = cam.columns[i];
            let ray = cast_ray(grid, cam.x, cam.y, d);
            let ghost before = *self;
            self.draw_wall_column(i, ray);
            assert forall|x: int, y: int|
                #![trigger self.pixel(x, y)]
                self.on_screen(x, y) implies self.pixel(x, y) == (if x / COLUMN_WIDTH as int >= i + 1 {
                    old_self.pixel(x, y)
                } else {
                    old_self.walls_pixel(grid, cam, x, y, old_self.pixel(x, y))
                }) by {
                assert(before.pixel(x, y) == (if x / COLUMN_WIDTH as int >= i {
                    old_self.pixel(x, y)
                } else {
                    old_self.walls_pixel(grid, cam, x, y, old_self.pixel(x, y))
                }));
            }
            i = i + 1;
        }
    }
}

/// Draws one frame into `renderer`: the frame is cleared, painted with the
/// ceiling and floor colours, then the wall pass and the sprite pass are drawn
/// over it. Every pixel of the result is opaque.
pub fn render_scene(grid: &WorldGrid, cam: &Camera, renderer: &mut Renderer, sprites: &mut Vec<Sprite>)
    requires
        frame_ready(grid, cam, old(renderer)),
        forall|i: int| 0 <= i < old(sprites)@.len() ==> (#[trigger] old(sprites)@[i]).wf(),
    ensures
        final(renderer).wf(),
        final(renderer).same_setup(old(renderer)),
        final(sprites)@.to_multiset() == old(sprites)@.map_values(|s: Sprite| with_distance(cam, s)).to_multiset(),
        sorted_far_to_near(final(sprites)@),
        ties_kept(old(sprites)@.map_values(|s: Sprite| with_distance(cam, s)), final(sprites)@),
        forall|x: int, y: int|
            #![trigger final(renderer).pixel(x, y)]
            final(renderer).on_screen(x, y) ==> final(renderer).pixel(x, y) == old(renderer).sprites_pixel(
                cam,
                final(sprites)@,
                x,
                y,
                old(renderer).walls_pixel(grid, cam, x, y, old(renderer).background(y)),
            ),
        forall|x: int, y: int|
            #![trigger final(renderer).pixel(x, y)]
            final(renderer).on_screen(x, y) ==> final(renderer).pixel(x, y).a == 255,
{
    let ghost start = *old(renderer);
    renderer.clear_framebuffer();
    renderer.fill_background();
    let ghost painted = *renderer;
    renderer.render_walls(grid, cam);
    let ghost walled = *renderer;
    proof {
        assert forall|x: int, y: int|
            #![trigger walled.pixel(x, y)]
            walled.on_screen(x, y) implies walled.pixel(x, y) == start.walls_pixel(grid, cam, x, y, start.background(y))
                && walled.pixel(x, y).a == 255 by {
            assert(painted.pixel(x, y) == painted.background(y));
        }
    }
    renderer.render_sprites(cam, sprites);
    proof {
        assert forall|x: int, y: int|
            #![trigger renderer.pixel(x, y)]
            renderer.on_screen(x, y) implies renderer.pixel(x, y) == start.sprites_pixel(
                cam,
                sprites@,
                x,
                y,
                start.walls_pixel(grid, cam, x, y, start.background(y)),
            ) && renderer.pixel(x, y).a == 255 by {
            assert(walled.pixel(x, y) == start.walls_pixel(grid, cam, x, y, start.background(y)));
            walled.lemma_sprites_pixel_same_setup(&start, cam, sprites@, x, y, walled.pixel(x, y));
            start.lemma_sprites_keep_opaque(cam, sprites@, x, y, walled.pixel(x, y));
        }
    }
}

impl Renderer {
    /// Drawing sprites over an opaque pixel leaves it opaque.
    pub proof fn lemma_sprites_keep_opaque(&self, cam: &Camera, ss: Seq<Sprite>, x: int, y: int, under: Rgba)
        requires
            under.a == 255,
        ensures
            self.sprites_pixel(cam, ss, x, y, under).a == 255,
        decreases ss.len(),
    {
        if ss.len() > 0 {
            self.lemma_sprites_keep_opaque(cam, ss.drop_last(), x, y, under);
            let below = self.sprites_pixel(cam, ss.drop_last(), x, y, under);
            match self.sprite_texel(cam, ss.last(), x, y) {
                Some(t) => lemma_blend_onto_opaque_stays_opaque(below, t),
                None => {},
            }
        }
    }
}

} // verus!
