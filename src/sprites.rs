//! Billboard sprites: camera-space projection, culling, back-to-front order
//! and alpha-composited drawing over the walls.

use vstd::prelude::*;
use vstd::multiset::Multiset;
use crate::camera::Camera;
use crate::fixed::{div_toward_zero, trunc_div, MAX_DIR, MAX_GRID, ONE};
use crate::framebuffer::{blend, blend_pixel, lemma_blend_opaque_replaces, Rgba, MAX_SCREEN};
use crate::renderer::{texture_slot, Renderer, MAX_TEXTURE_SIDE};
use crate::walls::tex_row;

verus! {

/// Largest magnitude of a sprite coordinate, in sub-cell units (2^62, that is
/// 2^46 cells): the squared distance to the camera then fits the `u128` sort
/// key, and every projection product stays inside `i128`.
pub const MAX_COORD: i64 = 4611686018427387904;

/// A billboard at a sub-cell world position. `distance` is scratch space for
/// the squared distance to the camera, used to order the sprites.
#[derive(Clone, Copy, Debug, PartialEq, Eq, Structural)]
pub struct Sprite {
    pub x: i64,
    pub y: i64,
    pub texture_id: u8,
    pub distance: u128,
}

impl Sprite {
    pub open spec fn wf(&self) -> bool {
        -MAX_COORD <= self.x <= MAX_COORD && -MAX_COORD <= self.y <= MAX_COORD
    }
}

/// The camera, as far as sprites see it: within the grid's coordinate range,
/// with a non-degenerate basis.
pub open spec fn sprite_camera_ok(cam: &Camera) -> bool {
    &&& cam.wf()
    &&& 0 <= cam.x < MAX_GRID * ONE
    &&& 0 <= cam.y < MAX_GRID * ONE
}

/// Squared Euclidean distance from the camera to the sprite.
pub open spec fn sq_distance(cam: &Camera, s: Sprite) -> int {
    (s.x - cam.x) * (s.x - cam.x) + (s.y - cam.y) * (s.y - cam.y)
}

/// The sprite with its distance field filled in.
pub open spec fn with_distance(cam: &Camera, s: Sprite) -> Sprite {
    Sprite { distance: sq_distance(cam, s) as u128, ..s }
}

/// Farthest first.
pub open spec fn sorted_far_to_near(ss: Seq<Sprite>) -> bool {
    forall|i: int, j: int| 0 <= i < j < ss.len() ==> ss[i].distance >= ss[j].distance
}

/// The sprites of `ss` whose distance field is `v`, in their order in `ss`.
pub open spec fn with_key(ss: Seq<Sprite>, v: u128) -> Seq<Sprite> {
    ss.filter(|s: Sprite| s.distance == v)
}

/// `b` keeps the relative order that `a` gives sprites of equal distance.
pub open spec fn ties_kept(a: Seq<Sprite>, b: Seq<Sprite>) -> bool {
    forall|v: u128| #[trigger] with_key(b, v) == with_key(a, v)
}

proof fn lemma_with_key_single(s: Sprite, v: u128)
    ensures
        with_key(seq![s], v) == (if s.distance == v { seq![s] } else { Seq::<Sprite>::empty() }),
{
    reveal(Seq::filter);
    assert(seq![s].drop_last() =~= Seq::<Sprite>::empty());
    assert(Seq::<Sprite>::empty().filter(|t: Sprite| t.distance == v) =~= Seq::<Sprite>::empty());
}

proof fn lemma_with_key_none(ss: Seq<Sprite>, v: u128)
    requires
        forall|j: int| 0 <= j < ss.len() ==> ss[j].distance != v,
    ensures
        with_key(ss, v) == Seq::<Sprite>::empty(),
{
    let pred = |t: Sprite| t.distance == v;
    let f = with_key(ss, v);
    if f.len() > 0 {
        ss.lemma_filter_pred(pred, 0);
        assert(f.contains(f[0]));
        ss.lemma_filter_contains_rev(pred, f[0]);
    }
    assert(f =~= Seq::<Sprite>::empty());
}

/// Moving the first sprite of greatest distance from `rest` to the end of
/// `out` keeps, for every distance, the order of the sprites that have it.
proof fn lemma_take_first_farthest(out: Seq<Sprite>, rest: Seq<Sprite>, k: int, v: u128)
    requires
        0 <= k < rest.len(),
        forall|j: int| 0 <= j < k ==> rest[j].distance < rest[k].distance,
    ensures
        with_key(out.push(rest[k]), v) + with_key(rest.remove(k), v) == with_key(out, v) + with_key(
            rest,
            v,
        ),
{
    let s = rest[k];
    let p = rest.subrange(0, k);
    let q = rest.subrange(k + 1, rest.len() as int);
    assert(rest =~= p + seq![s] + q);
    assert(rest.remove(k) =~= p + q);
    assert(out.push(s) =~= out + seq![s]);
    let pred = |t: Sprite| t.distance == v;
    Seq::filter_distributes_over_add(p + seq![s], q, pred);
    Seq::filter_distributes_over_add(p, seq![s], pred);
    Seq::filter_distributes_over_add(p, q, pred);
    Seq::filter_distributes_over_add(out, seq![s], pred);
    lemma_with_key_single(s, v);
    if s.distance == v {
        lemma_with_key_none(p, v);
    }
    assert(with_key(out.push(s), v) + with_key(rest.remove(k), v) =~= with_key(out, v) + with_key(
        rest,
        v,
    ));
}

proof fn lemma_with_key_cons(ss: Seq<Sprite>, v: u128)
    requires
        ss.len() > 0,
    ensures
        with_key(ss, v) == (if ss[0].distance == v { seq![ss[0]] + with_key(ss.drop_first(), v) }
        else { with_key(ss.drop_first(), v) }),
{
    assert(ss =~= seq![ss[0]] + ss.drop_first());
    Seq::filter_distributes_over_add(seq![ss[0]], ss.drop_first(), |t: Sprite| t.distance == v);
    lemma_with_key_single(ss[0], v);
    assert(Seq::<Sprite>::empty() + with_key(ss.drop_first(), v) =~= with_key(ss.drop_first(), v));
}

proof fn lemma_key_present(ss: Seq<Sprite>, i: int)
    requires
        0 <= i < ss.len(),
    ensures
        with_key(ss, ss[i].distance).len() > 0,
{
    ss.lemma_filter_contains(|t: Sprite| t.distance == ss[i].distance, i);
}

/// The far-to-near order is unique once ties keep their order: two lists
/// that are both sorted farthest first, and that list the sprites of each
/// distance alike, are equal. So sorting a given list always gives the same
/// result, and so does the frame drawn from it.
pub proof fn lemma_far_to_near_order_unique(a: Seq<Sprite>, b: Seq<Sprite>)
    requires
        sorted_far_to_near(a),
        sorted_far_to_near(b),
        forall|v: u128| #[trigger] with_key(a, v) == with_key(b, v),
    ensures
        a == b,
    decreases a.len() + b.len(),
{
    if a.len() == 0 || b.len() == 0 {
        if a.len() > 0 {
            lemma_key_present(a, 0);
            lemma_with_key_none(b, a[0].distance);
        }
        if b.len() > 0 {
            lemma_key_present(b, 0);
            lemma_with_key_none(a, b[0].distance);
        }
        assert(a =~= b);
    } else {
        let ma = a[0].distance;
        let mb = b[0].distance;
        lemma_key_present(a, 0);
        lemma_key_present(b, 0);
        if ma > mb {
            lemma_with_key_none(b, ma);
        }
        if mb > ma {
            lemma_with_key_none(a, mb);
        }
        let a2 = a.drop_first();
        let b2 = b.drop_first();
        assert forall|v: u128| #[trigger] with_key(a2, v) == with_key(b2, v) by {
            lemma_with_key_cons(a, v);
            lemma_with_key_cons(b, v);
            if v == ma {
                assert((seq![a[0]] + with_key(a2, v))[0] == a[0]);
                assert((seq![b[0]] + with_key(b2, v))[0] == b[0]);
                assert(with_key(a2, v) =~= (seq![a[0]] + with_key(a2, v)).drop_first());
                assert(with_key(b2, v) =~= (seq![b[0]] + with_key(b2, v)).drop_first());
            }
        }
        lemma_with_key_cons(a, ma);
        lemma_with_key_cons(b, ma);
        assert((seq![a[0]] + with_key(a2, ma))[0] == a[0]);
        assert((seq![b[0]] + with_key(b2, ma))[0] == b[0]);
        lemma_far_to_near_order_unique(a2, b2);
        assert(a =~= seq![a[0]] + a2);
        assert(b =~= seq![b[0]] + b2);
    }
}

/// Camera-space coordinates of a sprite, as numerators over a common positive
/// denominator: `(tx, ty, det)` stands for transformX = tx / det and
/// transformY = ty / det, obtained by applying the inverse of the
/// [plane, forward] matrix to the sprite's position relative to the camera.
pub open spec fn camera_space(cam: &Camera, s: Sprite) -> (int, int, int) {
    let sx = s.x - cam.x;
    let sy = s.y - cam.y;
    let det = cam.det();
    let tx = cam.dir.y * sx - cam.dir.x * sy;
    let ty = cam.plane.x * sy - cam.plane.y * sx;
    if det < 0 { (-tx, -ty, -det) } else { (tx, ty, det) }
}

/// A sprite is drawn only if it lies in front of the camera plane
/// (transformY > 0).
pub open spec fn sprite_in_front(cam: &Camera, s: Sprite) -> bool {
    camera_space(cam, s).1 > 0
}

/// Horizontal screen centre: (screenWidth / 2) · (1 + transformX / transformY).
pub open spec fn sprite_screen_x(cam: &Camera, s: Sprite, w: int) -> int {
    let (tx, ty, det) = camera_space(cam, s);
    trunc_div(w * (ty + tx), 2 * ty)
}

/// On-screen side of the (square) sprite: |screenHeight / transformY|.
pub open spec fn sprite_size(cam: &Camera, s: Sprite, h: int) -> int {
    let (tx, ty, det) = camera_space(cam, s);
    h * det / ty
}

/// The screen column of the sprite's left edge.
pub open spec fn sprite_left(cam: &Camera, s: Sprite, w: int, h: int) -> int {
    sprite_screen_x(cam, s, w) - sprite_size(cam, s, h) / 2
}

pub open spec fn clamp_low(v: int) -> int {
    if v < 0 { 0 } else { v }
}

pub open spec fn clamp_high(v: int, limit: int) -> int {
    if v > limit { limit } else { v }
}

/// Fills in each sprite's distance field with its squared distance to the
/// camera, leaving the order and everything else as it was.
pub fn update_distances(cam: &Camera, sprites: &mut Vec<Sprite>)
    requires
        sprite_camera_ok(cam),
        forall|i: int| 0 <= i < old(sprites)@.len() ==> (#[trigger] old(sprites)@[i]).wf(),
    ensures
        final(sprites)@.len() == old(sprites)@.len(),
        forall|i: int|
            0 <= i < final(sprites)@.len() ==> #[trigger] final(sprites)@[i] == with_distance(
                cam,
                old(sprites)@[i],
            ),
        forall|i: int| 0 <= i < final(sprites)@.len() ==> (#[trigger] final(sprites)@[i]).wf(),
{
    let n = sprites.len();
    let mut i: usize = 0;
    while i < n
        invariant
            sprite_camera_ok(cam),
            n == sprites@.len(),
            n == old(sprites)@.len(),
            i <= n,
            forall|j: int| 0 <= j < i ==> #[trigger] sprites@[j] == with_distance(cam, old(sprites)@[j]),
            forall|j: int| i <= j < n ==> #[trigger] sprites@[j] == old(sprites)@[j],
            forall|j: int| 0 <= j < n ==> (#[trigger] old(sprites)@[j]).wf(),
        decreases n - i,
    {
        let s = sprites[i];
        let dx = s.x as i128 - cam.x as i128;
        let dy = s.y as i128 - cam.y as i128;
        let b: i128 = 4611686087146864640;
        assert(0 <= dx * dx <= b * b && 0 <= dy * dy <= b * b) by (nonlinear_arith)
            requires -b <= dx <= b, -b <= dy <= b;
        let d = dx * dx + dy * dy;
        assert(d == sq_distance(cam, s));
        sprites.set(i, Sprite { distance: d as u128, ..s });
        i = i + 1;
    }
}

/// Reorders the sprites farthest first by their distance field.
pub fn sort_sprites(sprites: &mut Vec<Sprite>)
    ensures
        final(sprites)@.to_multiset() == old(sprites)@.to_multiset(),
        sorted_far_to_near(final(sprites)@),
        ties_kept(old(sprites)@, final(sprites)@),
        forall|i: int| 0 <= i < final(sprites)@.len() ==> old(sprites)@.contains(#[trigger] final(sprites)@[i]),
{
    broadcast use vstd::seq_lib::group_to_multiset_ensures;
    broadcast use vstd::multiset::group_multiset_axioms;
    let ghost orig = sprites@;
    let mut out: Vec<Sprite> = Vec::new();
    while sprites.len() > 0
        invariant
            out@.to_multiset().add(sprites@.to_multiset()) == orig.to_multiset(),
            forall|v: u128| #[trigger] with_key(out@, v) + with_key(sprites@, v) == with_key(orig, v),
            sorted_far_to_near(out@),
            forall|i: int, j: int|
                0 <= i < out@.len() && 0 <= j < sprites@.len() ==> out@[i].distance
                    >= sprites@[j].distance,
        decreases sprites@.len(),
    {
        let mut best: usize = 0;
        let mut k: usize = 1;
        while k < sprites.len()
            invariant
                0 < sprites@.len(),
                best < sprites@.len(),
                1 <= k <= sprites@.len(),
                forall|j: int| 0 <= j < k ==> sprites@[best as int].distance >= #[trigger] sprites@[j].distance,
                forall|j: int| 0 <= j < best ==> #[trigger] sprites@[j].distance < sprites@[best as int].distance,
            decreases sprites@.len() - k,
        {
            if sprites[k].distance > sprites[best].distance {
                best = k;
            }
            k = k + 1;
        }
        let ghost before = sprites@;
        let s = sprites.remove(best);
        proof { before.to_multiset_ensures(); }
        assert(sprites@ == before.remove(best as int));
        assert(sprites@.to_multiset() =~= before.to_multiset().remove(s));
        assert forall|j: int| 0 <= j < sprites@.len() implies s.distance >= #[trigger] sprites@[j].distance by {
            if j < best {
                assert(sprites@[j] == before[j]);
            } else {
                assert(sprites@[j] == before[j + 1]);
            }
        }
        assert forall|i: int, j: int|
            0 <= i < out@.len() && 0 <= j < sprites@.len() implies out@[i].distance >= sprites@[j].distance by {
            if j < best {
                assert(sprites@[j] == before[j]);
            } else {
                assert(sprites@[j] == before[j + 1]);
            }
        }
        assert(before.contains(s)) by {
            assert(before[best as int] == s);
        }
        let ghost out_before = out@;
        out.push(s);
        assert forall|v: u128| #[trigger] with_key(out@, v) + with_key(sprites@, v) == with_key(orig, v) by {
            lemma_take_first_farthest(out_before, before, best as int, v);
        }
        proof { out_before.to_multiset_ensures(); }
        assert(out@ == out_before.push(s));
        assert(out@.to_multiset() =~= out_before.to_multiset().insert(s));
        assert(out@.to_multiset().add(sprites@.to_multiset()) =~= out_before.to_multiset().add(
            before.to_multiset(),
        ));
    }
    proof {
        out@.to_multiset_ensures();
        orig.to_multiset_ensures();
        assert(sprites@.len() == 0);
        assert(sprites@.to_multiset() =~= Multiset::empty());
        assert(out@.to_multiset() =~= orig.to_multiset());
        assert forall|v: u128| #[trigger] with_key(out@, v) == with_key(orig, v) by {
            assert(with_key(sprites@, v) =~= Seq::<Sprite>::empty()) by {
                lemma_with_key_none(sprites@, v);
            }
            assert(with_key(out@, v) + with_key(sprites@, v) =~= with_key(out@, v));
        }
        assert forall|i: int| 0 <= i < out@.len() implies orig.contains(#[trigger] out@[i]) by {
            assert(out@.contains(out@[i]));
            assert(out@.to_multiset().count(out@[i]) > 0);
            assert(orig.to_multiset().count(out@[i]) > 0);
        }
    }
    *sprites = out;
}

impl Renderer {
    /// Whether the sprite's drawing rectangle, clamped to the screen, holds
    /// pixel (x, y), for a sprite in front of the camera with a texture.
    pub open spec fn sprite_covers(&self, cam: &Camera, s: Sprite, x: int, y: int) -> bool {
        let w = self.screen_width as int;
        let h = self.screen_height as int;
        let size = sprite_size(cam, s, h);
        let sx = sprite_screen_x(cam, s, w);
        &&& sprite_in_front(cam, s)
        &&& 0 <= texture_slot(s.texture_id) < self.textures@.len()
        &&& clamp_low(sx - size / 2) <= x < clamp_high(size / 2 + sx, w - 1)
        &&& clamp_low(h / 2 - size / 2) <= y < clamp_high(size / 2 + h / 2, h - 1)
    }

    /// The texel of the sprite's texture shown at pixel (x, y).
    pub open spec fn sprite_texel(&self, cam: &Camera, s: Sprite, x: int, y: int) -> Option<Rgba> {
        let w = self.screen_width as int;
        let h = self.screen_height as int;
        let size = sprite_size(cam, s, h);
        let tx = trunc_div((x - sprite_left(cam, s, w, h)) * self.texture_width, size);
        let ty = tex_row(h, size, self.texture_height as int, y);
        self.texel(texture_slot(s.texture_id), tx, ty)
    }

    /// Pixel (x, y) after drawing sprite `s` over `under`: the texel composited
    /// over it where the sprite covers the pixel, else `under` unchanged.
    pub open spec fn sprite_pixel(&self, cam: &Camera, s: Sprite, x: int, y: int, under: Rgba) -> Rgba {
        if self.sprite_covers(cam, s, x, y) {
            match self.sprite_texel(cam, s, x, y) {
                Some(t) => blend(under, t),
                None => under,
            }
        } else {
            under
        }
    }

    /// Pixel (x, y) after drawing the sprites of `ss` in order over `under`.
    pub open spec fn sprites_pixel(&self, cam: &Camera, ss: Seq<Sprite>, x: int, y: int, under: Rgba) -> Rgba
        decreases ss.len(),
    {
        if ss.len() == 0 {
            under
        } else {
            self.sprite_pixel(cam, ss.last(), x, y, self.sprites_pixel(cam, ss.drop_last(), x, y, under))
        }
    }

    /// Draws one sprite: every covered pixel whose texel is not fully
    /// transparent gets the texel composited over it. A sprite behind the
    /// camera plane, or without a texture, draws nothing.
    pub fn draw_sprite(&mut self, cam: &Camera, sprite: Sprite)
        requires
            old(self).wf(),
            sprite_camera_ok(cam),
            sprite.wf(),
        ensures
            final(self).wf(),
            final(self).same_setup(old(self)),
            forall|x: int, y: int|
                #![trigger final(self).pixel(x, y)]
                final(self).on_screen(x, y) ==> final(self).pixel(x, y) == old(self).sprite_pixel(
                    cam,
                    sprite,
                    x,
                    y,
                    old(self).pixel(x, y),
                ),
            !sprite_in_front(cam, sprite) ==> final(self).framebuffer@ == old(self).framebuffer@,
    {
        let ghost old_self = *old(self);
        let sx = sprite.x as i128 - cam.x as i128;
        let sy = sprite.y as i128 - cam.y as i128;
        let dx = cam.dir.x as i128;
        let dy = cam.dir.y as i128;
        let plx = cam.plane.x as i128;
        let ply = cam.plane.y as i128;
        // Magnitude bounds of the intermediate values: relative position (bs),
        // camera-space numerators (bt), projected size (bz) and screen-space
        // edges (bx). All products below stay far inside i128.
        let bs: i128 = 9223372036854775808;
        assert(-bs <= sx <= bs && -bs <= sy <= bs);
        assert(-MAX_DIR * bs <= dy * sx <= MAX_DIR * bs) by (nonlinear_arith)
            requires -bs <= sx <= bs, -MAX_DIR <= dy <= MAX_DIR, bs > 0;
        assert(-MAX_DIR * bs <= dx * sy <= MAX_DIR * bs) by (nonlinear_arith)
            requires -bs <= sy <= bs, -MAX_DIR <= dx <= MAX_DIR, bs > 0;
        assert(-MAX_DIR * bs <= ply * sx <= MAX_DIR * bs) by (nonlinear_arith)
            requires -bs <= sx <= bs, -MAX_DIR <= ply <= MAX_DIR, bs > 0;
        assert(-MAX_DIR * bs <= plx * sy <= MAX_DIR * bs) by (nonlinear_arith)
            requires -bs <= sy <= bs, -MAX_DIR <= plx <= MAX_DIR, bs > 0;
        assert(-MAX_DIR * MAX_DIR <= plx * dy <= MAX_DIR * MAX_DIR) by (nonlinear_arith)
            requires -MAX_DIR <= dy <= MAX_DIR, -MAX_DIR <= plx <= MAX_DIR;
        assert(-MAX_DIR * MAX_DIR <= dx * ply <= MAX_DIR * MAX_DIR) by (nonlinear_arith)
            requires -MAX_DIR <= dx <= MAX_DIR, -MAX_DIR <= ply <= MAX_DIR;
        let mut det = plx * dy - dx * ply;
        let mut tx = dy * sx - dx * sy;
        let mut ty = plx * sy - ply * sx;
        if det < 0 {
            det = -det;
            tx = -tx;
            ty = -ty;
        }
        assert((tx as int, ty as int, det as int) == camera_space(cam, sprite));
        if ty <= 0 {
            return;
        }
        if sprite.texture_id == 0 || (sprite.texture_id - 1) as usize >= self.textures.len() {
            return;
        }
        let slot = (sprite.texture_id - 1) as usize;
        let w = self.screen_width as i128;
        let h = self.screen_height as i128;
        let tw = self.texture_width as i128;
        let th = self.texture_height as i128;
        let bt: i128 = 2417851639229258349412352;
        assert(bt == 2 * MAX_DIR * bs);
        assert(-2 * bt <= ty + tx <= 2 * bt);
        assert(-(MAX_SCREEN * 2 * bt) <= w * (ty + tx) <= MAX_SCREEN * 2 * bt) by (nonlinear_arith)
            requires -2 * bt <= ty + tx <= 2 * bt, 1 <= w <= MAX_SCREEN, bt > 0;
        let screen_x = div_toward_zero(w * (ty + tx), 2 * ty);
        assert(-(MAX_SCREEN * 2 * bt) <= screen_x <= MAX_SCREEN * 2 * bt) by {
            let a = (w * (ty + tx)) as int;
            if a >= 0 {
                vstd::arithmetic::div_mod::lemma_div_nonincreasing(a, 2 * ty);
                vstd::arithmetic::div_mod::lemma_div_pos_is_pos(a, 2 * ty);
            } else {
                vstd::arithmetic::div_mod::lemma_div_nonincreasing(-a, 2 * ty);
                vstd::arithmetic::div_mod::lemma_div_pos_is_pos(-a, 2 * ty);
            }
        }
        assert(0 < det <= 2 * MAX_DIR * MAX_DIR);
        assert(0 <= h * det <= MAX_SCREEN * 2 * MAX_DIR * MAX_DIR) by (nonlinear_arith)
            requires 0 < det <= 2 * MAX_DIR * MAX_DIR, 1 <= h <= MAX_SCREEN;
        let size = h * det / ty;
        proof {
            vstd::arithmetic::div_mod::lemma_div_nonincreasing((h * det) as int, ty as int);
            vstd::arithmetic::div_mod::lemma_div_pos_is_pos((h * det) as int, ty as int);
        }
        let bz: i128 = 147573952555316674560;
        assert(0 <= size <= bz);
        let half = size / 2;
        let left = screen_x - half;
        let x0: i128 = if left < 0 { 0 } else { left };
        let x1v = half + screen_x;
        let x1: i128 = if x1v > w - 1 { w - 1 } else { x1v };
        let y0v = h / 2 - half;
        let y0: i128 = if y0v < 0 { 0 } else { y0v };
        let y1v = half + h / 2;
        let y1: i128 = if y1v > h - 1 { h - 1 } else { y1v };
        let bx: i128 = 20769187429303754809616023934730240;
        assert(forall|qx: int, qy: int|
            #![trigger old_self.sprite_covers(cam, sprite, qx, qy)]
            old_self.sprite_covers(cam, sprite, qx, qy) <==> (x0 <= qx < x1 && y0 <= qy < y1));
        let mut x: i128 = x0;
        while x < x1
            invariant
                self.wf(),
                self.same_setup(&old_self),
                w == self.screen_width,
                h == self.screen_height,
                tw == self.texture_width,
                th == self.texture_height,
                slot as int == texture_slot(sprite.texture_id),
                slot < self.textures@.len(),
                ty > 0,
                size == sprite_size(cam, sprite, h as int),
                0 <= size <= bz,
                bz == 147573952555316674560,
                bx == 20769187429303754809616023934730240,
                bt == 2417851639229258349412352,
                left == sprite_left(cam, sprite, w as int, h as int),
                half == size / 2,
                left == screen_x - half,
                x1 <= half + screen_x,
                y0 >= h / 2 - half,
                -bx <= left <= bx,
                left <= x0,
                0 <= x0,
                x0 <= x,
                x <= x1 || x1 <= x0,
                x1 <= w - 1,
                0 <= y0,
                y1 <= h - 1,
                sprite_in_front(cam, sprite),
                forall|qx: int, qy: int|
                    #![trigger old_self.sprite_covers(cam, sprite, qx, qy)]
                    old_self.sprite_covers(cam, sprite, qx, qy) <==> (x0 <= qx < x1 && y0 <= qy < y1),
                forall|qx: int, qy: int|
                    #![trigger self.pixel(qx, qy)]
                    self.on_screen(qx, qy) ==> self.pixel(qx, qy) == (if x0 <= qx < x && y0 <= qy < y1 {
                        old_self.sprite_pixel(cam, sprite, qx, qy, old_self.pixel(qx, qy))
                    } else {
                        old_self.pixel(qx, qy)
                    }),
            decreases x1 - x,
        {
            assert(0 <= x - left <= MAX_SCREEN + bx);
            assert(0 <= (x - left) * tw <= (MAX_SCREEN + bx) * MAX_TEXTURE_SIDE) by (nonlinear_arith)
                requires 0 <= x - left <= MAX_SCREEN + bx, 1 <= tw <= MAX_TEXTURE_SIDE,
                    bx == 20769187429303754809616023934730240, bz == 147573952555316674560,
                    bt == 2417851639229258349412352;
            assert(size > 0);
            let xl = x - left;
            assert(xl * tw <= (4294967295 + 20769187429303754809616023934730240) * 1024);
            let tex_x = div_toward_zero(xl * tw, size);
            let xx = x as usize;
            let mut y: i128 = y0;
            while y < y1
                invariant
                    self.wf(),
                    self.same_setup(&old_self),
                    w == self.screen_width,
                    h == self.screen_height,
                    tw == self.texture_width,
                    th == self.texture_height,
                    slot as int == texture_slot(sprite.texture_id),
                    slot < self.textures@.len(),
                    size == sprite_size(cam, sprite, h as int),
                    0 < size <= bz,
                    bz == 147573952555316674560,
                    left == sprite_left(cam, sprite, w as int, h as int),
                    tex_x == trunc_div((x - left) * tw, size as int),
                    half == size / 2,
                    y0 >= h / 2 - half,
                    0 <= x0 <= x < x1,
                    x1 <= w - 1,
                    xx == x,
                    0 <= y0 <= y,
                    y <= y1 || y1 <= y0,
                    y1 <= h - 1,
                    forall|qx: int, qy: int|
                        #![trigger old_self.sprite_covers(cam, sprite, qx, qy)]
                        old_self.sprite_covers(cam, sprite, qx, qy) <==> (x0 <= qx < x1 && y0 <= qy < y1),
                    forall|qx: int, qy: int|
                        #![trigger self.pixel(qx, qy)]
                        self.on_screen(qx, qy) ==> self.pixel(qx, qy) == (if (x0 <= qx < x && y0 <= qy
                            < y1) || (qx == x && y0 <= qy < y) {
                            old_self.sprite_pixel(cam, sprite, qx, qy, old_self.pixel(qx, qy))
                        } else {
                            old_self.pixel(qx, qy)
                        }),
                decreases y1 - y,
            {
                let d = y * 256 - h * 128 + size * 128;
                assert(-(MAX_SCREEN * 128) <= d <= MAX_SCREEN * 256 + bz * 128);
                assert(-(MAX_SCREEN * 128 * MAX_TEXTURE_SIDE) <= d * th <= (MAX_SCREEN * 256 + bz
                    * 128) * MAX_TEXTURE_SIDE) by (nonlinear_arith)
                    requires
                        -(MAX_SCREEN * 128) <= d <= MAX_SCREEN * 256 + bz * 128,
                        1 <= th <= MAX_TEXTURE_SIDE,
                        bz == 147573952555316674560;
                let q = div_toward_zero(d * th, size);
                assert(-(MAX_SCREEN * 128 * MAX_TEXTURE_SIDE) <= q <= (MAX_SCREEN * 256 + bz * 128)
                    * MAX_TEXTURE_SIDE) by {
                    let a = (d * th) as int;
                    if a >= 0 {
                        vstd::arithmetic::div_mod::lemma_div_nonincreasing(a, size as int);
                        vstd::arithmetic::div_mod::lemma_div_pos_is_pos(a, size as int);
                    } else {
                        vstd::arithmetic::div_mod::lemma_div_nonincreasing(-a, size as int);
                        vstd::arithmetic::div_mod::lemma_div_pos_is_pos(-a, size as int);
                    }
                }
                let tex_y = div_toward_zero(q, 256);
                let texel = self.texel_at(slot, tex_x, tex_y);
                let yy = y as usize;
                assert(texel == old_self.sprite_texel(cam, sprite, x as int, y as int));
                match texel {
                    Some(t) => {
                        if t.a > 0 {
                            let under = self.get_pixel(xx, yy);
                            let c = blend_pixel(under, t);
                            self.set_pixel(xx, yy, c);
                        }
                    },
                    None => {},
                }
                y = y + 1;
            }
            x = x + 1;
        }
    }

    /// The sprite drawn last decides a pixel where it shows an opaque texel,
    /// whatever lay beneath it. Since the sprite pass draws farthest first,
    /// the nearest sprite covering a pixel with an opaque texel is what shows.
    pub proof fn lemma_last_opaque_sprite_shows(&self, cam: &Camera, ss: Seq<Sprite>, x: int, y: int, under: Rgba)
        requires
            ss.len() > 0,
            self.sprite_covers(cam, ss.last(), x, y),
            self.sprite_texel(cam, ss.last(), x, y) is Some,
            self.sprite_texel(cam, ss.last(), x, y)->Some_0.a == 255,
        ensures
            self.sprites_pixel(cam, ss, x, y, under) == self.sprite_texel(cam, ss.last(), x, y)->Some_0,
    {
        let below = self.sprites_pixel(cam, ss.drop_last(), x, y, under);
        lemma_blend_opaque_replaces(below, self.sprite_texel(cam, ss.last(), x, y)->Some_0);
    }

    /// Sprites behind the camera plane write nothing: drawing a list gives
    /// every pixel the value that drawing only its sprites in front of the
    /// camera gives.
    pub proof fn lemma_culled_sprites_draw_nothing(&self, cam: &Camera, ss: Seq<Sprite>, x: int, y: int, under: Rgba)
        ensures
            self.sprites_pixel(cam, ss, x, y, under) == self.sprites_pixel(
                cam,
                ss.filter(|s: Sprite| sprite_in_front(cam, s)),
                x,
                y,
                under,
            ),
        decreases ss.len(),
    {
        let pred = |s: Sprite| sprite_in_front(cam, s);
        reveal(Seq::filter);
        if ss.len() > 0 {
            self.lemma_culled_sprites_draw_nothing(cam, ss.drop_last(), x, y, under);
            let kept = ss.drop_last().filter(pred);
            if pred(ss.last()) {
                assert(kept.push(ss.last()).drop_last() =~= kept);
            }
        }
    }

    /// Sprites drawn with the same textures and screen give the same pixels.
    pub proof fn lemma_sprites_pixel_same_setup(&self, other: &Renderer, cam: &Camera, ss: Seq<Sprite>, x: int, y: int, under: Rgba)
        requires
            self.same_setup(other),
        ensures
            self.sprites_pixel(cam, ss, x, y, under) == other.sprites_pixel(cam, ss, x, y, under),
        decreases ss.len(),
    {
        if ss.len() > 0 {
            self.lemma_sprites_pixel_same_setup(other, cam, ss.drop_last(), x, y, under);
        }
    }

    /// The sprite pass: fills in the sprites' distances to the camera, orders
    /// them farthest first, and draws them in that order, so that a nearer
    /// sprite is composited over a farther one.
    pub fn render_sprites(&mut self, cam: &Camera, sprites: &mut Vec<Sprite>)
        requires
            old(self).wf(),
            sprite_camera_ok(cam),
            forall|i: int| 0 <= i < old(sprites)@.len() ==> (#[trigger] old(sprites)@[i]).wf(),
        ensures
            final(self).wf(),
            final(self).same_setup(old(self)),
            final(sprites)@.to_multiset() == old(sprites)@.map_values(|s: Sprite| with_distance(cam, s)).to_multiset(),
            sorted_far_to_near(final(sprites)@),
            ties_kept(old(sprites)@.map_values(|s: Sprite| with_distance(cam, s)), final(sprites)@),
            forall|i: int| 0 <= i < final(sprites)@.len() ==> (#[trigger] final(sprites)@[i]).wf(),
            forall|x: int, y: int|
                #![trigger final(self).pixel(x, y)]
                final(self).on_screen(x, y) ==> final(self).pixel(x, y) == old(self).sprites_pixel(
                    cam,
                    final(sprites)@,
                    x,
                    y,
                    old(self).pixel(x, y),
                ),
    {
        let ghost old_self = *old(self);
        update_distances(cam, sprites);
        let ghost measured = sprites@;
        assert(measured =~= old(sprites)@.map_values(|s: Sprite| with_distance(cam, s)));
        sort_sprites(sprites);
        assert forall|i: int| 0 <= i < sprites@.len() implies (#[trigger] sprites@[i]).wf() by {
            assert(measured.contains(sprites@[i]));
        }
        let n = sprites.len();
        let mut i: usize = 0;
        while i < n
            invariant
                self.wf(),
                self.same_setup(&old_self),
                sprite_camera_ok(cam),
                n == sprites@.len(),
                i <= n,
                forall|j: int| 0 <= j < n ==> (#[trigger] sprites@[j]).wf(),
                forall|x: int, y: int|
                    #![trigger self.pixel(x, y)]
                    self.on_screen(x, y) ==> self.pixel(x, y) == old_self.sprites_pixel(
                        cam,
                        sprites@.subrange(0, i as int),
                        x,
                        y,
                        old_self.pixel(x, y),
                    ),
            decreases n - i,
        {
            let ghost before = *self;
            self.draw_sprite(cam, sprites[i]);
            assert forall|x: int, y: int|
                #![trigger self.pixel(x, y)]
                self.on_screen(x, y) implies self.pixel(x, y) == old_self.sprites_pixel(
                    cam,
                    sprites@.subrange(0, i + 1),
                    x,
                    y,
                    old_self.pixel(x, y),
                ) by {
                let prev = sprites@.subrange(0, i as int);
                let next = sprites@.subrange(0, i + 1);
                assert(next.drop_last() =~= prev);
                assert(before.pixel(x, y) == old_self.sprites_pixel(cam, prev, x, y, old_self.pixel(x, y)));
                let one = seq![sprites@[i as int]];
                assert(one.drop_last() =~= Seq::<Sprite>::empty());
                before.lemma_sprites_pixel_same_setup(&old_self, cam, one, x, y, before.pixel(x, y));
            }
            i = i + 1;
        }
        assert(sprites@.subrange(0, n as int) =~= sprites@);
    }
}

} // verus!
