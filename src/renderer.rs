//! The frame being drawn and the textures it is drawn with.

use vstd::prelude::*;
use crate::framebuffer::{
    lemma_pixel_in_frame, lemma_pixels_disjoint, pixel_at, px_index, Rgba, MAX_SCREEN,
};
use crate::world::ConfigError;

verus! {

/// Largest texture side, in texels.
pub const MAX_TEXTURE_SIDE: usize = 1024;

/// Colour of the upper half of the background.
pub open spec fn ceiling_color() -> Rgba {
    Rgba { r: 50, g: 50, b: 50, a: 255 }
}

/// Colour of the lower half of the background.
pub open spec fn floor_color() -> Rgba {
    Rgba { r: 100, g: 100, b: 100, a: 255 }
}

/// Opaque black, drawn where a texture is missing.
pub open spec fn opaque_black() -> Rgba {
    Rgba { r: 0, g: 0, b: 0, a: 255 }
}

/// The texture a tile or sprite code refers to: code `c ≥ 1` names texture
/// `c − 1`; code 0 names none (the result is then negative).
pub open spec fn texture_slot(code: u8) -> int {
    code as int - 1
}

/// An RGBA8 frame buffer together with a store of equally sized RGBA8
/// textures.
pub struct Renderer {
    pub framebuffer: Vec<u8>,
    pub textures: Vec<Vec<u8>>,
    pub texture_width: usize,
    pub texture_height: usize,
    pub screen_width: usize,
    pub screen_height: usize,
}

impl Renderer {
    pub open spec fn wf(&self) -> bool {
        &&& 1 <= self.screen_width <= MAX_SCREEN
        &&& 1 <= self.screen_height <= MAX_SCREEN
        &&& self.screen_width * self.screen_height * 4 <= usize::MAX
        &&& self.framebuffer@.len() == self.screen_width * self.screen_height * 4
        &&& 1 <= self.texture_width <= MAX_TEXTURE_SIDE
        &&& 1 <= self.texture_height <= MAX_TEXTURE_SIDE
        &&& forall|i: int| 0 <= i < self.textures@.len()
            ==> #[trigger] self.textures@[i]@.len() == self.texture_width * self.texture_height * 4
    }

    /// The pixel (x, y) of the frame.
    pub open spec fn pixel(&self, x: int, y: int) -> Rgba {
        pixel_at(self.framebuffer@, self.screen_width as int, x, y)
    }

    pub open spec fn on_screen(&self, x: int, y: int) -> bool {
        0 <= x < self.screen_width && 0 <= y < self.screen_height
    }

    /// Everything but the pixels is the same.
    pub open spec fn same_setup(&self, other: &Renderer) -> bool {
        &&& self.textures@ == other.textures@
        &&& self.texture_width == other.texture_width
        &&& self.texture_height == other.texture_height
        &&& self.screen_width == other.screen_width
        &&& self.screen_height == other.screen_height
    }

    /// The texel (tx, ty) of texture `slot`, if the texture exists and the
    /// texel's four bytes lie inside it.
    pub open spec fn texel(&self, slot: int, tx: int, ty: int) -> Option<Rgba> {
        if 0 <= slot < self.textures@.len() && tx >= 0 && ty >= 0 && (ty * self.texture_width
            + tx) * 4 + 3 < self.textures@[slot]@.len() {
            let t = self.textures@[slot]@;
            let i = (ty * self.texture_width + tx) * 4;
            Some(Rgba { r: t[i], g: t[i + 1], b: t[i + 2], a: t[i + 3] })
        } else {
            None
        }
    }

    /// A renderer for a `screen_width × screen_height` frame with 64 × 64
    /// textures and none loaded yet. It refuses an empty screen, a side over
    /// [`MAX_SCREEN`], and a frame whose byte count does not fit in `usize`.
    pub fn new(screen_width: usize, screen_height: usize) -> (r: Result<Renderer, ConfigError>)
        ensures
            (1 <= screen_width <= MAX_SCREEN && 1 <= screen_height <= MAX_SCREEN && screen_width
                * screen_height * 4 <= usize::MAX) <==> r is Ok,
            r is Err ==> r == Err::<Renderer, ConfigError>(ConfigError::BadScreenSize),
            r is Ok ==> {
                let v = r->Ok_0;
                &&& v.wf()
                &&& v.screen_width == screen_width
                &&& v.screen_height == screen_height
                &&& v.texture_width == 64
                &&& v.texture_height == 64
                &&& v.textures@.len() == 0
                &&& forall|i: int| 0 <= i < v.framebuffer@.len() ==> v.framebuffer@[i] == 0
            },
    {
        if screen_width == 0 || screen_height == 0 || screen_width > MAX_SCREEN || screen_height
            > MAX_SCREEN {
            return Err(ConfigError::BadScreenSize);
        }
        let n = match screen_width.checked_mul(screen_height) {
            Some(p) => match p.checked_mul(4) {
                Some(n) => n,
                None => {
                    return Err(ConfigError::BadScreenSize);
                },
            },
            None => {
                assert(screen_width * screen_height * 4 > usize::MAX) by (nonlinear_arith)
                    requires screen_width * screen_height > usize::MAX;
                return Err(ConfigError::BadScreenSize);
            },
        };
        Ok(Renderer {
            framebuffer: vec![0u8; n],
            textures: Vec::new(),
            texture_width: 64,
            texture_height: 64,
            screen_width,
            screen_height,
        })
    }

    /// Adds a texture given as `texture_width × texture_height` RGBA8 texels;
    /// refuses (and keeps nothing) if the size is wrong. It gets the next slot.
    pub fn add_texture(&mut self, pixels: Vec<u8>) -> (accepted: bool)
        requires
            old(self).wf(),
        ensures
            final(self).wf(),
            accepted == (pixels@.len() == old(self).texture_width * old(self).texture_height * 4),
            accepted ==> final(self).textures@ == old(self).textures@.push(pixels),
            !accepted ==> final(self).textures@ == old(self).textures@,
            final(self).framebuffer@ == old(self).framebuffer@,
            final(self).texture_width == old(self).texture_width,
            final(self).texture_height == old(self).texture_height,
            final(self).screen_width == old(self).screen_width,
            final(self).screen_height == old(self).screen_height,
    {
        assert(self.texture_width * self.texture_height * 4 <= MAX_TEXTURE_SIDE * MAX_TEXTURE_SIDE
            * 4) by (nonlinear_arith)
            requires self.texture_width <= MAX_TEXTURE_SIDE, self.texture_height <= MAX_TEXTURE_SIDE;
        if pixels.len() != self.texture_width * self.texture_height * 4 {
            return false;
        }
        self.textures.push(pixels);
        true
    }

    /// The pixel (x, y) of the frame.
    pub fn get_pixel(&self, x: usize, y: usize) -> (r: Rgba)
        requires
            self.wf(),
            self.on_screen(x as int, y as int),
        ensures
            r == self.pixel(x as int, y as int),
    {
        proof {
            lemma_pixel_in_frame(self.screen_width as int, self.screen_height as int, x as int, y as int);
        }
        let i = (y * self.screen_width + x) * 4;
        Rgba {
            r: self.framebuffer[i],
            g: self.framebuffer[i + 1],
            b: self.framebuffer[i + 2],
            a: self.framebuffer[i + 3],
        }
    }

    /// Overwrites the pixel (x, y) and nothing else.
    pub fn set_pixel(&mut self, x: usize, y: usize, c: Rgba)
        requires
            old(self).wf(),
            old(self).on_screen(x as int, y as int),
        ensures
            final(self).wf(),
            final(self).same_setup(old(self)),
            final(self).pixel(x as int, y as int) == c,
            forall|px: int, py: int|
                #![trigger final(self).pixel(px, py)]
                final(self).on_screen(px, py) && (px != x || py != y) ==> final(self).pixel(px, py)
                    == old(self).pixel(px, py),
    {
        let ghost w = self.screen_width as int;
        proof {
            lemma_pixel_in_frame(w, self.screen_height as int, x as int, y as int);
        }
        let i = (y * self.screen_width + x) * 4;
        self.framebuffer.set(i, c.r);
        self.framebuffer.set(i + 1, c.g);
        self.framebuffer.set(i + 2, c.b);
        self.framebuffer.set(i + 3, c.a);
        assert forall|px: int, py: int|
            #![trigger self.pixel(px, py)]
            self.on_screen(px, py) && (px != x || py != y) implies self.pixel(px, py) == old(
                self,
            ).pixel(px, py) by {
            lemma_pixels_disjoint(w, px, py, x as int, y as int);
            lemma_pixel_in_frame(w, self.screen_height as int, px, py);
        }
    }

    /// Sets every byte of the frame to zero.
    pub fn clear_framebuffer(&mut self)
        requires
            old(self).wf(),
        ensures
            final(self).wf(),
            final(self).same_setup(old(self)),
            forall|i: int| 0 <= i < final(self).framebuffer@.len() ==> final(self).framebuffer@[i] == 0,
            forall|x: int, y: int|
                #![trigger final(self).pixel(x, y)]
                final(self).on_screen(x, y) ==> final(self).pixel(x, y) == (Rgba { r: 0, g: 0, b: 0, a: 0 }),
    {
        let n = self.framebuffer.len();
        let mut i: usize = 0;
        while i < n
            invariant
                self.wf(),
                self.same_setup(old(self)),
                n == self.framebuffer@.len(),
                i <= n,
                forall|j: int| 0 <= j < i ==> self.framebuffer@[j] == 0,
            decreases n - i,
        {
            self.framebuffer.set(i, 0);
            i = i + 1;
        }
        assert forall|x: int, y: int|
            #![trigger self.pixel(x, y)]
            self.on_screen(x, y) implies self.pixel(x, y) == (Rgba { r: 0, g: 0, b: 0, a: 0 }) by {
            lemma_pixel_in_frame(self.screen_width as int, self.screen_height as int, x, y);
        }
    }

    /// The background colour of row y: ceiling above the middle, floor below.
    pub open spec fn background(&self, y: int) -> Rgba {
        if y < self.screen_height / 2 { ceiling_color() } else { floor_color() }
    }

    /// Paints every pixel with the ceiling or floor colour.
    pub fn fill_background(&mut self)
        requires
            old(self).wf(),
        ensures
            final(self).wf(),
            final(self).same_setup(old(self)),
            forall|x: int, y: int|
                #![trigger final(self).pixel(x, y)]
                final(self).on_screen(x, y) ==> final(self).pixel(x, y) == final(self).background(y),
    {
        let sw = self.screen_width;
        let sh = self.screen_height;
        let mut y: usize = 0;
        while y < sh
            invariant
                self.wf(),
                self.same_setup(old(self)),
                sw == self.screen_width,
                sh == self.screen_height,
                y <= sh,
                forall|px: int, py: int|
                    #![trigger self.pixel(px, py)]
                    self.on_screen(px, py) && py < y ==> self.pixel(px, py) == self.background(py),
            decreases sh - y,
        {
            let c = if y < sh / 2 {
                Rgba { r: 50, g: 50, b: 50, a: 255 }
            } else {
                Rgba { r: 100, g: 100, b: 100, a: 255 }
            };
            let mut x: usize = 0;
            while x < sw
                invariant
                    self.wf(),
                    self.same_setup(old(self)),
                    sw == self.screen_width,
                    sh == self.screen_height,
                    y < sh,
                    x <= sw,
                    c == self.background(y as int),
                    forall|px: int, py: int|
                        #![trigger self.pixel(px, py)]
                        self.on_screen(px, py) && (py < y || (py == y && px < x)) ==> self.pixel(
                            px,
                            py,
                        ) == self.background(py),
                decreases sw - x,
            {
                self.set_pixel(x, y, c);
                x = x + 1;
            }
            y = y + 1;
        }
    }

    /// Fills the on-screen part of the rectangle of `width × height` pixels
    /// whose top-left corner is (x, y) with an opaque colour (black if none is
    /// given).
    pub fn draw_rect(&mut self, x: usize, y: usize, width: usize, height: usize, color: Option<(u8, u8, u8)>)
        requires
            old(self).wf(),
        ensures
            final(self).wf(),
            final(self).same_setup(old(self)),
            forall|px: int, py: int|
                #![trigger final(self).pixel(px, py)]
                final(self).on_screen(px, py) ==> final(self).pixel(px, py) == (if x <= px < x + width
                    && y <= py < y + height {
                    match color {
                        Some(c) => Rgba { r: c.0, g: c.1, b: c.2, a: 255 },
                        None => opaque_black(),
                    }
                } else {
                    old(self).pixel(px, py)
                }),
    {
        let (r, g, b) = match color {
            Some(c) => c,
            None => (0u8, 0u8, 0u8),
        };
        let c = Rgba { r, g, b, a: 255 };
        let sw = self.screen_width;
        let sh = self.screen_height;
        let end_x = if x >= sw { x } else if width > sw - x { sw } else { x + width };
        let end_y = if y >= sh { y } else if height > sh - y { sh } else { y + height };
        let ghost old_self = *old(self);
        assert(x <= end_x && (end_x <= sw || end_x == x));
        assert(y <= end_y && (end_y <= sh || end_y == y));
        let mut px: usize = x;
        while px < end_x
            invariant
                self.wf(),
                self.same_setup(&old_self),
                sw == self.screen_width,
                sh == self.screen_height,
                x <= px <= end_x,
                end_x <= sw || end_x == x,
                y <= end_y,
                end_y <= sh || end_y == y,
                end_x as int == (if x >= sw { x as int } else if x + width < sw { x + width } else { sw as int }),
                end_y as int == (if y >= sh { y as int } else if y + height < sh { y + height } else { sh as int }),
                forall|qx: int, qy: int|
                    #![trigger self.pixel(qx, qy)]
                    self.on_screen(qx, qy) ==> self.pixel(qx, qy) == (if x <= qx < px && y <= qy
                        < end_y { c } else { old_self.pixel(qx, qy) }),
            decreases end_x - px,
        {
            let mut py: usize = y;
            while py < end_y
                invariant
                    self.wf(),
                    self.same_setup(&old_self),
                    sw == self.screen_width,
                    sh == self.screen_height,
                    x <= px < end_x,
                    end_x <= sw,
                    y <= py <= end_y,
                    end_y <= sh || end_y == y,
                    forall|qx: int, qy: int|
                        #![trigger self.pixel(qx, qy)]
                        self.on_screen(qx, qy) ==> self.pixel(qx, qy) == (if (x <= qx < px && y <= qy
                            < end_y) || (qx == px && y <= qy < py) { c } else { old_self.pixel(qx, qy) }),
                decreases end_y - py,
            {
                self.set_pixel(px, py, c);
                py = py + 1;
            }
            px = px + 1;
        }
    }

    /// The texel (tx, ty) of texture `slot`, if there is one.
    pub fn texel_at(&self, slot: usize, tx: i128, ty: i128) -> (r: Option<Rgba>)
        requires
            self.wf(),
        ensures
            r == self.texel(slot as int, tx as int, ty as int),
    {
        if slot >= self.textures.len() || tx < 0 || ty < 0 {
            return None;
        }
        let t = &self.textures[slot];
        let n = t.len();
        let tw = self.texture_width;
        assert(n <= MAX_TEXTURE_SIDE * MAX_TEXTURE_SIDE * 4) by (nonlinear_arith)
            requires n == tw * self.texture_height * 4, tw <= MAX_TEXTURE_SIDE,
                self.texture_height <= MAX_TEXTURE_SIDE;
        if tx >= n as i128 || ty >= n as i128 {
            assert((ty * tw + tx) * 4 + 3 >= n) by (nonlinear_arith)
                requires tx >= n || ty >= n, tx >= 0, ty >= 0, tw >= 1;
            return None;
        }
        assert(0 <= (ty * tw + tx) * 4 <= (n * MAX_TEXTURE_SIDE + n) * 4) by (nonlinear_arith)
            requires 0 <= tx < n, 0 <= ty < n, 1 <= tw <= MAX_TEXTURE_SIDE;
        let i = (ty * tw as i128 + tx) * 4;
        if i + 3 >= n as i128 {
            return None;
        }
        let i = i as usize;
        Some(Rgba { r: t[i], g: t[i + 1], b: t[i + 2], a: t[i + 3] })
    }

    /// The colour of texel (tex_x, tex_y) of texture `texture_index`, or black
    /// if there is no such texel.
    pub fn get_texture_color_rgb(&self, texture_index: usize, tex_x: usize, tex_y: usize) -> (r: (
        u8,
        u8,
        u8,
    ))
        requires
            self.wf(),
        ensures
            r == (match self.texel(texture_index as int, tex_x as int, tex_y as int) {
                Some(c) => (c.r, c.g, c.b),
                None => (0u8, 0u8, 0u8),
            }),
    {
        match self.texel_at(texture_index, tex_x as i128, tex_y as i128) {
            Some(c) => (c.r, c.g, c.b),
            None => (0, 0, 0),
        }
    }
}

} // verus!
