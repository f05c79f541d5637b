//! Projecting a ray hit into a textured vertical strip of the frame.

use vstd::prelude::*;
use crate::fixed::{div_toward_zero, trunc_div, ONE};
use crate::framebuffer::{Rgba, MAX_SCREEN};
use crate::raycasting::Ray;
use crate::renderer::{opaque_black, texture_slot, Renderer, MAX_TEXTURE_SIDE};

verus! {

/// Screen columns per ray.
pub const COLUMN_WIDTH: usize = 6;

/// On-screen height of a wall at `distance`: the screen height over the
/// distance (a distance below one fixed-point unit counts as one unit).
pub open spec fn line_height(screen_h: int, distance: int) -> int {
    screen_h * ONE / (if distance < 1 { 1int } else { distance })
}

/// First row of a strip of height `lh` centred on the screen, clamped to it.
pub open spec fn span_start(screen_h: int, lh: int) -> int {
    let v = screen_h / 2 - lh / 2;
    if v < 0 { 0 } else { v }
}

/// Row after the last one drawn, clamped to the last screen row.
pub open spec fn span_end(screen_h: int, lh: int) -> int {
    let v = screen_h / 2 + lh / 2;
    if v > screen_h - 1 { screen_h - 1 } else { v }
}

/// The texture row for screen row y of a strip of height `lh`, by the
/// 256-scaled scan mapping.
pub open spec fn tex_row(screen_h: int, lh: int, tex_h: int, y: int) -> int {
    trunc_div(trunc_div((y * 256 - screen_h * 128 + lh * 128) * tex_h, lh), 256)
}

/// The texture column for a face coordinate in `[0, ONE)`.
pub open spec fn wall_tex_x(tex_w: int, texture_coord: int) -> int {
    texture_coord * tex_w / (ONE as int)
}

impl Renderer {
    /// The colour drawn at row y of the strip for `ray`: its tile's texel, or
    /// opaque black where there is none.
    pub open spec fn wall_color(&self, ray: Ray, y: int) -> Rgba {
        let lh = line_height(self.screen_height as int, ray.distance as int);
        let tx = wall_tex_x(self.texture_width as int, ray.texture_coord as int);
        let ty = tex_row(self.screen_height as int, lh, self.texture_height as int, y);
        match self.texel(texture_slot(ray.texture_id), tx, ty) {
            Some(c) => Rgba { r: c.r, g: c.g, b: c.b, a: 255 },
            None => opaque_black(),
        }
    }

    /// Whether pixel (x, y) belongs to the strip of `ray` in ray column `column`.
    pub open spec fn in_wall_strip(&self, column: int, ray: Ray, x: int, y: int) -> bool {
        let lh = line_height(self.screen_height as int, ray.distance as int);
        &&& column * COLUMN_WIDTH <= x < column * COLUMN_WIDTH + COLUMN_WIDTH
        &&& span_start(self.screen_height as int, lh) <= y < span_end(self.screen_height as int, lh)
    }

    /// Draws the textured strip that `ray` projects to, over the screen
    /// columns of ray column `column`.
    pub fn draw_wall_column(&mut self, column: usize, ray: Ray)
        requires
            old(self).wf(),
            column * COLUMN_WIDTH + COLUMN_WIDTH <= old(self).screen_width,
            0 <= ray.texture_coord < ONE,
        ensures
            final(self).wf(),
            final(self).same_setup(old(self)),
            forall|x: int, y: int|
                #![trigger final(self).pixel(x, y)]
                final(self).on_screen(x, y) ==> final(self).pixel(x, y) == (if old(self).in_wall_strip(
                    column as int,
                    ray,
                    x,
                    y,
                ) {
                    old(self).wall_color(ray, y)
                } else {
                    old(self).pixel(x, y)
                }),
    {
        let ghost old_self = *old(self);
        let sh = self.screen_height as i128;
        let dist: i128 = if ray.distance < 1 { 1 } else { ray.distance as i128 };
        assert(sh * ONE <= MAX_SCREEN * ONE);
        let lh = sh * (ONE as i128) / dist;
        proof {
            vstd::arithmetic::div_mod::lemma_div_nonincreasing(sh * ONE, dist as int);
            vstd::arithmetic::div_mod::lemma_div_pos_is_pos(sh * ONE, dist as int);
        }
        let v0 = sh / 2 - lh / 2;
        let start: i128 = if v0 < 0 { 0 } else { v0 };
        let v1 = sh / 2 + lh / 2;
        let end: i128 = if v1 > sh - 1 { sh - 1 } else { v1 };
        let tw = self.texture_width as i128;
        let th = self.texture_height as i128;
        assert(0 <= ray.texture_coord * tw <= ONE * MAX_TEXTURE_SIDE) by (nonlinear_arith)
            requires 0 <= ray.texture_coord < ONE, 1 <= tw <= MAX_TEXTURE_SIDE;
        let tx = ray.texture_coord as i128 * tw / (ONE as i128);
        let x0 = column * COLUMN_WIDTH;
        let mut y: i128 = start;
        while y < end
            invariant
                self.wf(),
                self.same_setup(&old_self),
                sh == self.screen_height,
                tw == self.texture_width,
                th == self.texture_height,
                lh == line_height(sh as int, ray.distance as int),
                0 <= lh <= MAX_SCREEN * ONE,
                start == span_start(sh as int, lh as int),
                end == span_end(sh as int, lh as int),
                tx == wall_tex_x(tw as int, ray.texture_coord as int),
                x0 == column * COLUMN_WIDTH,
                x0 + COLUMN_WIDTH <= self.screen_width,
                start <= y,
                y <= end || end <= start,
                forall|qx: int, qy: int|
                    #![trigger self.pixel(qx, qy)]
                    self.on_screen(qx, qy) ==> self.pixel(qx, qy) == (if old_self.in_wall_strip(
                        column as int,
                        ray,
                        qx,
                        qy,
                    ) && qy < y {
                        old_self.wall_color(ray, qy)
                    } else {
                        old_self.pixel(qx, qy)
                    }),
            decreases end - y,
        {
            assert(lh > 0);
            assert(0 <= y < sh);
            let d = y * 256 - sh * 128 + lh * 128;
            assert(-(MAX_SCREEN * 256) <= d <= MAX_SCREEN * 256 + MAX_SCREEN * ONE * 128);
            assert(-(MAX_SCREEN * 256 * MAX_TEXTURE_SIDE) <= d * th <= (MAX_SCREEN * 256
                + MAX_SCREEN * ONE * 128) * MAX_TEXTURE_SIDE) by (nonlinear_arith)
                requires
                    -(MAX_SCREEN * 256) <= d <= MAX_SCREEN * 256 + MAX_SCREEN * ONE * 128,
                    1 <= th <= MAX_TEXTURE_SIDE;
            let q = div_toward_zero(d * th, lh);
            assert(trunc_div((d * th) as int, lh as int) >= -(MAX_SCREEN * 256 * MAX_TEXTURE_SIDE)
                && trunc_div((d * th) as int, lh as int) <= (MAX_SCREEN * 256 + MAX_SCREEN * ONE
                * 128) * MAX_TEXTURE_SIDE) by {
                if d * th >= 0 {
                    vstd::arithmetic::div_mod::lemma_div_nonincreasing((d * th) as int, lh as int);
                    vstd::arithmetic::div_mod::lemma_div_pos_is_pos((d * th) as int, lh as int);
                } else {
                    vstd::arithmetic::div_mod::lemma_div_nonincreasing(-(d * th) as int, lh as int);
                    vstd::arithmetic::div_mod::lemma_div_pos_is_pos(-(d * th) as int, lh as int);
                }
            }
            let ty = div_toward_zero(q, 256);
            let texel = if ray.texture_id == 0 {
                None
            } else {
                self.texel_at((ray.texture_id - 1) as usize, tx, ty)
            };
            let c = match texel {
                Some(t) => Rgba { r: t.r, g: t.g, b: t.b, a: 255 },
                None => Rgba { r: 0, g: 0, b: 0, a: 255 },
            };
            assert(c == old_self.wall_color(ray, y as int));
            let yy = y as usize;
            let mut x: usize = x0;
            while x < x0 + COLUMN_WIDTH
                invariant
                    self.wf(),
                    self.same_setup(&old_self),
                    sh == self.screen_height,
                    x0 == column * COLUMN_WIDTH,
                    x0 + COLUMN_WIDTH <= self.screen_width,
                    x0 <= x <= x0 + COLUMN_WIDTH,
                    yy == y,
                    0 <= y < sh,
                    start <= y < end,
                    start == span_start(sh as int, lh as int),
                    end == span_end(sh as int, lh as int),
                    lh == line_height(sh as int, ray.distance as int),
                    c == old_self.wall_color(ray, y as int),
                    forall|qx: int, qy: int|
                        #![trigger self.pixel(qx, qy)]
                        self.on_screen(qx, qy) ==> self.pixel(qx, qy) == (if old_self.in_wall_strip(
                            column as int,
                            ray,
                            qx,
                            qy,
                        ) && (qy < y || (qy == y && qx < x)) {
                            old_self.wall_color(ray, qy)
                        } else {
                            old_self.pixel(qx, qy)
                        }),
                decreases x0 + COLUMN_WIDTH - x,
            {
                self.set_pixel(x, yy, c);
                x = x + 1;
            }
            y = y + 1;
        }
    }
}

} // verus!
