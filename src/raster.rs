//! Pixel buffers: rendering a matrix into one, and compositing one over another.
use vstd::prelude::*;
use vstd::arithmetic::div_mod::lemma_fundamental_div_mod_converse;
use crate::matrix::{ImageConfig, QrMatrix};

verus! {

/// The mathematical value of a pixel buffer.
pub ghost struct RasterView {
    pub width: nat,
    pub height: nat,
    pub pixels: Seq<[u8; 3]>,
}

impl RasterView {
    /// The buffer holds exactly `width * height` pixels.
    pub open spec fn wf(self) -> bool {
        self.pixels.len() == self.width * self.height
    }

    /// The pixel in column `x` of row `y`.
    pub open spec fn pixel(self, x: int, y: int) -> [u8; 3] {
        self.pixels[y * self.width + x]
    }
}

/// An RGB pixel buffer, row by row.
#[derive(Debug, Clone)]
pub struct RasterImage {
    pub width: u32,
    pub height: u32,
    pub pixels: Vec<[u8; 3]>,
}

impl View for RasterImage {
    type V = RasterView;

    open spec fn view(&self) -> RasterView {
        RasterView { width: self.width as nat, height: self.height as nat, pixels: self.pixels@ }
    }
}

/// The mathematical value of a pixel buffer with an alpha channel.
pub ghost struct RgbaView {
    pub width: nat,
    pub height: nat,
    pub pixels: Seq<[u8; 4]>,
}

impl RgbaView {
    /// The buffer holds exactly `width * height` pixels.
    pub open spec fn wf(self) -> bool {
        self.pixels.len() == self.width * self.height
    }

    /// The pixel in column `x` of row `y`.
    pub open spec fn pixel(self, x: int, y: int) -> [u8; 4] {
        self.pixels[y * self.width + x]
    }
}

/// An RGBA pixel buffer, row by row: red, green, blue and opacity.
#[derive(Debug, Clone)]
pub struct RgbaImage {
    pub width: u32,
    pub height: u32,
    pub pixels: Vec<[u8; 4]>,
}

impl View for RgbaImage {
    type V = RgbaView;

    open spec fn view(&self) -> RgbaView {
        RgbaView { width: self.width as nat, height: self.height as nat, pixels: self.pixels@ }
    }
}

/// What alpha compositing makes of an opaque pixel with a translucent one
/// laid over it.
pub uninterp spec fn blended(bottom: [u8; 3], top: [u8; 4]) -> [u8; 3];

/// Relies on `image::Rgba::blend` (as `imageops::overlay` uses it over an
/// opaque RGB image, whose pixels it reads as `Rgba` of opacity 255 and
/// writes back without the alpha channel): a clear pixel leaves the one
/// beneath unchanged, and an opaque one replaces it.
#[verifier::external_body]
fn blend_pixel(bottom: [u8; 3], top: [u8; 4]) -> (r: [u8; 3])
    ensures
        r == blended(bottom, top),
        top[3] == 0 ==> r == bottom,
        top[3] == 255 ==> r == [top[0], top[1], top[2]],
{
    let mut p = image::Rgba([bottom[0], bottom[1], bottom[2], 255]);
    image::Pixel::blend(&mut p, &image::Rgba(top));
    [p.0[0], p.0[1], p.0[2]]
}

impl RasterImage {
    /// Width and height, in pixels.
    pub fn dimensions(&self) -> (r: (u32, u32))
        ensures
            r == (self.width, self.height),
    {
        (self.width, self.height)
    }

    /// The pixel in column `x` of row `y`.
    pub fn get_pixel(&self, x: u32, y: u32) -> (r: [u8; 3])
        requires
            self@.wf(),
            x < self.width,
            y < self.height,
        ensures
            r == self@.pixel(x as int, y as int),
    {
        let n = self.pixels.len();
        proof {
            lemma_index_in_grid(self.width as int, self.height as int, x as int, y as int);
        }
        self.pixels[y as usize * self.width as usize + x as usize]
    }
}

/// A position in a `w` by `h` grid has a row-major index below `w * h`.
proof fn lemma_index_in_grid(w: int, h: int, x: int, y: int)
    requires
        0 <= x < w,
        0 <= y < h,
    ensures
        0 <= y * w + x < w * h,
{
    assert(0 <= y * w + x < w * h) by (nonlinear_arith)
        requires
            0 <= x < w,
            0 <= y < h,
    ;
}

/// Two positions of a grid of width `w` share a row-major index only if they
/// are the same position.
proof fn lemma_index_unique(w: int, x1: int, y1: int, x2: int, y2: int)
    requires
        0 <= x1 < w,
        0 <= x2 < w,
        0 <= y1,
        0 <= y2,
        y1 * w + x1 == y2 * w + x2,
    ensures
        x1 == x2,
        y1 == y2,
{
    lemma_fundamental_div_mod_converse(y1 * w + x1, w, y1, x1);
    lemma_fundamental_div_mod_converse(y2 * w + x2, w, y2, x2);
}

/// Whether pixel (`px`, `py`) lies under a `tw` by `th` image placed with its
/// top-left corner at (`x`, `y`).
pub open spec fn covers(x: int, y: int, tw: int, th: int, px: int, py: int) -> bool {
    x <= px < x + tw && y <= py < y + th
}

/// The pixel at (`px`, `py`) once `top` is drawn over `bottom` with its
/// top-left corner at (`x`, `y`): the top image's pixel where it lies, else
/// the bottom one's.
pub open spec fn composite_pixel(
    bottom: RasterView,
    top: RasterView,
    x: int,
    y: int,
    px: int,
    py: int,
) -> [u8; 3] {
    if covers(x, y, top.width as int, top.height as int, px, py) {
        top.pixel(px - x, py - y)
    } else {
        bottom.pixel(px, py)
    }
}

/// `result` is `bottom` with `top` drawn over it at (`x`, `y`), overwriting
/// the pixels beneath and clipped to `bottom`'s bounds.
pub open spec fn is_composite(
    result: RasterView,
    bottom: RasterView,
    top: RasterView,
    x: int,
    y: int,
) -> bool {
    &&& result.wf()
    &&& result.width == bottom.width
    &&& result.height == bottom.height
    &&& forall|px: int, py: int|
        0 <= px < bottom.width && 0 <= py < bottom.height ==> #[trigger] result.pixel(px, py)
            == composite_pixel(bottom, top, x, y, px, py)
}

/// `result` is `bottom` with `top` laid over it at (`x`, `y`), each pixel
/// beneath blended with the one above it by its opacity, clipped to
/// `bottom`'s bounds.
pub open spec fn is_blended_composite(
    result: RasterView,
    bottom: RasterView,
    top: RgbaView,
    x: int,
    y: int,
) -> bool {
    &&& result.wf()
    &&& result.width == bottom.width
    &&& result.height == bottom.height
    &&& forall|px: int, py: int|
        0 <= px < bottom.width && 0 <= py < bottom.height ==> #[trigger] result.pixel(px, py)
            == if covers(x, y, top.width as int, top.height as int, px, py) {
            blended(bottom.pixel(px, py), top.pixel(px - x, py - y))
        } else {
            bottom.pixel(px, py)
        }
}

/// The offset that centres an extent `inner` within an extent `outer`, or 0
/// where it does not fit.
pub open spec fn center_offset(outer: int, inner: int) -> int {
    if inner <= outer {
        (outer - inner) / 2
    } else {
        0
    }
}

/// Computes `center_offset`.
pub fn center_offset_of(outer: u32, inner: u32) -> (r: u32)
    ensures
        r == center_offset(outer as int, inner as int),
{
    if inner <= outer {
        (outer - inner) / 2
    } else {
        0
    }
}

/// Draws `top` over `bottom` with its top-left corner at (`x`, `y`),
/// overwriting the pixels beneath; what falls outside `bottom` is dropped.
pub fn overlay(bottom: &mut RasterImage, top: &RasterImage, x: u32, y: u32)
    requires
        old(bottom)@.wf(),
        top@.wf(),
    ensures
        is_composite(final(bottom)@, old(bottom)@, top@, x as int, y as int),
{
    let ghost orig = bottom@;
    let w = bottom.width;
    let h = bottom.height;
    let tw = top.width;
    let th = top.height;
    let nb = bottom.pixels.len();
    let nt = top.pixels.len();
    let x_end: u64 = if x as u64 + tw as u64 <= w as u64 {
        x as u64 + tw as u64
    } else {
        w as u64
    };
    let y_end: u64 = if y as u64 + th as u64 <= h as u64 {
        y as u64 + th as u64
    } else {
        h as u64
    };
    let mut py: u64 = y as u64;
    while py < y_end
        invariant
            orig.wf(),
            top@.wf(),
            bottom@.wf(),
            bottom.width == w,
            bottom.height == h,
            orig.width == w,
            orig.height == h,
            top.width == tw,
            top.height == th,
            nb == orig.pixels.len(),
            nt == top@.pixels.len(),
            x_end <= w,
            y_end <= h,
            x_end == x + tw || x_end == w,
            y_end == y + th || y_end == h,
            x_end <= x + tw,
            y_end <= y + th,
            y <= py,
            py <= y_end || py == y,
            forall|qx: int, qy: int|
                0 <= qx < w && 0 <= qy < h ==> #[trigger] bottom@.pixel(qx, qy) == if covers(
                    x as int,
                    y as int,
                    tw as int,
                    th as int,
                    qx,
                    qy,
                ) && qy < py {
                    top@.pixel(qx - x, qy - y)
                } else {
                    orig.pixel(qx, qy)
                },
        decreases y_end - py,
    {
        let mut px: u64 = x as u64;
        while px < x_end
            invariant
                orig.wf(),
                top@.wf(),
                bottom@.wf(),
                bottom.width == w,
                bottom.height == h,
                orig.width == w,
                orig.height == h,
                top.width == tw,
                top.height == th,
                nb == orig.pixels.len(),
                nt == top@.pixels.len(),
                x_end <= w,
                y_end <= h,
                x_end == x + tw || x_end == w,
                y_end == y + th || y_end == h,
                x_end <= x + tw,
                y_end <= y + th,
                y <= py < y_end,
                x <= px,
                px <= x_end || px == x,
                forall|qx: int, qy: int|
                    0 <= qx < w && 0 <= qy < h ==> #[trigger] bottom@.pixel(qx, qy) == if covers(
                        x as int,
                        y as int,
                        tw as int,
                        th as int,
                        qx,
                        qy,
                    ) && (qy < py || (qy == py && qx < px)) {
                        top@.pixel(qx - x, qy - y)
                    } else {
                        orig.pixel(qx, qy)
                    },
            decreases x_end - px,
        {
            let bx = px as usize;
            let by = py as usize;
            let tx = (px - x as u64) as usize;
            let ty = (py - y as u64) as usize;
            proof {
                lemma_index_in_grid(w as int, h as int, bx as int, by as int);
                lemma_index_in_grid(tw as int, th as int, tx as int, ty as int);
            }
            let bi = by * (w as usize) + bx;
            let ti = ty * (tw as usize) + tx;
            let p = top.pixels[ti];
            let ghost prev = bottom@;
            bottom.pixels[bi] = p;
            proof {
                assert forall|qx: int, qy: int|
                    0 <= qx < w && 0 <= qy < h implies #[trigger] bottom@.pixel(qx, qy) == if covers(
                        x as int,
                        y as int,
                        tw as int,
                        th as int,
                        qx,
                        qy,
                    ) && (qy < py || (qy == py && qx < px + 1)) {
                        top@.pixel(qx - x, qy - y)
                    } else {
                        orig.pixel(qx, qy)
                    } by {
                    lemma_index_in_grid(w as int, h as int, qx, qy);
                    assert(prev.pixel(qx, qy) == orig.pixel(qx, qy) || prev.pixel(qx, qy)
                        == top@.pixel(qx - x, qy - y));
                    if qy * w + qx == bi {
                        lemma_index_unique(w as int, qx, qy, bx as int, by as int);
                    } else {
                        assert(bottom@.pixel(qx, qy) == prev.pixel(qx, qy));
                    }
                }
            }
            px += 1;
        }
        py += 1;
    }
}

/// Lays `top` over `bottom` with its top-left corner at (`x`, `y`),
/// blending each pixel beneath with the one above by its opacity; what falls
/// outside `bottom` is dropped.
pub fn overlay_blended(bottom: &mut RasterImage, top: &RgbaImage, x: u32, y: u32)
    requires
        old(bottom)@.wf(),
        top@.wf(),
    ensures
        is_blended_composite(final(bottom)@, old(bottom)@, top@, x as int, y as int),
{
    let ghost orig = bottom@;
    let w = bottom.width;
    let h = bottom.height;
    let tw = top.width;
    let th = top.height;
    let nb = bottom.pixels.len();
    let nt = top.pixels.len();
    let x_end: u64 = if x as u64 + tw as u64 <= w as u64 {
        x as u64 + tw as u64
    } else {
        w as u64
    };
    let y_end: u64 = if y as u64 + th as u64 <= h as u64 {
        y as u64 + th as u64
    } else {
        h as u64
    };
    let mut py: u64 = y as u64;
    while py < y_end
        invariant
            orig.wf(),
            top@.wf(),
            bottom@.wf(),
            bottom.width == w,
            bottom.height == h,
            orig.width == w,
            orig.height == h,
            top.width == tw,
            top.height == th,
            nb == orig.pixels.len(),
            nt == top@.pixels.len(),
            x_end <= w,
            y_end <= h,
            x_end == x + tw || x_end == w,
            y_end == y + th || y_end == h,
            x_end <= x + tw,
            y_end <= y + th,
            y <= py,
            py <= y_end || py == y,
            forall|qx: int, qy: int|
                0 <= qx < w && 0 <= qy < h ==> #[trigger] bottom@.pixel(qx, qy) == if covers(
                    x as int,
                    y as int,
                    tw as int,
                    th as int,
                    qx,
                    qy,
                ) && qy < py {
                    blended(orig.pixel(qx, qy), top@.pixel(qx - x, qy - y))
                } else {
                    orig.pixel(qx, qy)
                },
        decreases y_end - py,
    {
        let mut px: u64 = x as u64;
        while px < x_end
            invariant
                orig.wf(),
                top@.wf(),
                bottom@.wf(),
                bottom.width == w,
                bottom.height == h,
                orig.width == w,
                orig.height == h,
                top.width == tw,
                top.height == th,
                nb == orig.pixels.len(),
                nt == top@.pixels.len(),
                x_end <= w,
                y_end <= h,
                x_end == x + tw || x_end == w,
                y_end == y + th || y_end == h,
                x_end <= x + tw,
                y_end <= y + th,
                y <= py < y_end,
                x <= px,
                px <= x_end || px == x,
                forall|qx: int, qy: int|
                    0 <= qx < w && 0 <= qy < h ==> #[trigger] bottom@.pixel(qx, qy) == if covers(
                        x as int,
                        y as int,
                        tw as int,
                        th as int,
                        qx,
                        qy,
                    ) && (qy < py || (qy == py && qx < px)) {
                        blended(orig.pixel(qx, qy), top@.pixel(qx - x, qy - y))
                    } else {
                        orig.pixel(qx, qy)
                    },
            decreases x_end - px,
        {
            let bx = px as usize;
            let by = py as usize;
            let tx = (px - x as u64) as usize;
            let ty = (py - y as u64) as usize;
            proof {
                lemma_index_in_grid(w as int, h as int, bx as int, by as int);
                lemma_index_in_grid(tw as int, th as int, tx as int, ty as int);
            }
            let bi = by * (w as usize) + bx;
            let ti = ty * (tw as usize) + tx;
            let ghost prev = bottom@;
            proof {
                assert(!covers(x as int, y as int, tw as int, th as int, bx as int, by as int) || !(
                (by as int) < py || (by == py && (bx as int) < px)));
                assert(prev.pixel(bx as int, by as int) == orig.pixel(bx as int, by as int));
            }
            let p = blend_pixel(bottom.pixels[bi], top.pixels[ti]);
            bottom.pixels[bi] = p;
            proof {
                assert forall|qx: int, qy: int|
                    0 <= qx < w && 0 <= qy < h implies #[trigger] bottom@.pixel(qx, qy) == if covers(
                        x as int,
                        y as int,
                        tw as int,
                        th as int,
                        qx,
                        qy,
                    ) && (qy < py || (qy == py && qx < px + 1)) {
                        blended(orig.pixel(qx, qy), top@.pixel(qx - x, qy - y))
                    } else {
                        orig.pixel(qx, qy)
                    } by {
                    lemma_index_in_grid(w as int, h as int, qx, qy);
                    assert(prev.pixel(qx, qy) == orig.pixel(qx, qy) || prev.pixel(qx, qy)
                        == blended(orig.pixel(qx, qy), top@.pixel(qx - x, qy - y)));
                    if qy * w + qx == bi {
                        lemma_index_unique(w as int, qx, qy, bx as int, by as int);
                    } else {
                        assert(bottom@.pixel(qx, qy) == prev.pixel(qx, qy));
                    }
                }
            }
            px += 1;
        }
        py += 1;
    }
}

/// Side length, in pixels, of the raster of a matrix of `modules` modules at
/// `scale` pixels per module: the matrix and a one-module quiet zone around it.
pub open spec fn raster_side(modules: int, scale: int) -> int {
    (modules + 2) * scale
}

/// The colour of pixel (`x`, `y`) in the raster of `qr`: the module it falls
/// in decides, and the quiet zone is light.
pub open spec fn raster_pixel(qr: QrMatrix, scale: int, dark: [u8; 3], light: [u8; 3], x: int, y: int) -> [u8; 3] {
    let mx = x / scale;
    let my = y / scale;
    if 1 <= mx <= qr.width && 1 <= my <= qr.width && qr.module(mx - 1, my - 1) {
        dark
    } else {
        light
    }
}

/// The raster of `qr` at `scale` pixels per module, in the two colours.
pub open spec fn raster_view(qr: QrMatrix, scale: int, dark: [u8; 3], light: [u8; 3]) -> RasterView {
    let side = raster_side(qr.width as int, scale);
    RasterView {
        width: side as nat,
        height: side as nat,
        pixels: Seq::new(
            (side * side) as nat,
            |i: int| raster_pixel(qr, scale, dark, light, i % side, i / side),
        ),
    }
}

/// Renders a matrix into a raster: each module becomes a `scale` by `scale`
/// block of the dark or light colour, inside a light quiet zone one module
/// wide.
pub fn render_to_image(qr: &QrMatrix, config: &ImageConfig) -> (r: RasterImage)
    requires
        qr.wf(),
        config.scale >= 1,
        raster_side(qr.width as int, config.scale as int) <= u32::MAX,
        raster_side(qr.width as int, config.scale as int) * raster_side(
            qr.width as int,
            config.scale as int,
        ) <= usize::MAX,
    ensures
        r@ == raster_view(*qr, config.scale as int, config.dark_color, config.light_color),
        r@.wf(),
        r.width == raster_side(qr.width as int, config.scale as int),
        r.height == raster_side(qr.width as int, config.scale as int),
        forall|x: int, y: int|
            0 <= x < r.width && 0 <= y < r.height ==> #[trigger] r@.pixel(x, y) == raster_pixel(
                *qr,
                config.scale as int,
                config.dark_color,
                config.light_color,
                x,
                y,
            ),
{
    let scale = config.scale as usize;
    proof {
        assert(qr.width + 2 <= (qr.width + 2) * scale) by (nonlinear_arith)
            requires
                scale >= 1,
        ;
    }
    let side: usize = (qr.width + 2) * scale;
    let ghost s = scale as int;
    let mut pixels: Vec<[u8; 3]> = Vec::new();
    let mut y: usize = 0;
    while y < side
        invariant
            qr.wf(),
            s == config.scale,
            scale == s,
            s >= 1,
            side == raster_side(qr.width as int, s),
            side * side <= usize::MAX,
            y <= side,
            pixels@.len() == y * side,
            forall|i: int|
                0 <= i < pixels@.len() ==> #[trigger] pixels@[i] == raster_pixel(
                    *qr,
                    s,
                    config.dark_color,
                    config.light_color,
                    i % (side as int),
                    i / (side as int),
                ),
        decreases side - y,
    {
        let mut x: usize = 0;
        while x < side
            invariant
                qr.wf(),
                s == config.scale,
                scale == s,
                s >= 1,
                side == raster_side(qr.width as int, s),
                side * side <= usize::MAX,
                y < side,
                x <= side,
                pixels@.len() == y * side + x,
                forall|i: int|
                    0 <= i < pixels@.len() ==> #[trigger] pixels@[i] == raster_pixel(
                        *qr,
                        s,
                        config.dark_color,
                        config.light_color,
                        i % (side as int),
                        i / (side as int),
                    ),
            decreases side - x,
        {
            let mx = x / scale;
            let my = y / scale;
            let dark = if 1 <= mx && mx <= qr.width && 1 <= my && my <= qr.width {
                qr.is_dark(mx - 1, my - 1)
            } else {
                false
            };
            let p = if dark {
                config.dark_color
            } else {
                config.light_color
            };
            proof {
                lemma_fundamental_div_mod_converse(
                    (y * side + x) as int,
                    side as int,
                    y as int,
                    x as int,
                );
                assert(y * side + x < side * side) by (nonlinear_arith)
                    requires
                        y < side,
                        x < side,
                ;
            }
            pixels.push(p);
            x += 1;
        }
        proof {
            assert((y + 1) * side == y * side + side) by (nonlinear_arith);
        }
        y += 1;
    }
    let r = RasterImage { width: side as u32, height: side as u32, pixels };
    assert(r@.pixels =~= raster_view(*qr, s, config.dark_color, config.light_color).pixels);
    assert forall|x: int, y: int|
        0 <= x < r.width && 0 <= y < r.height implies #[trigger] r@.pixel(x, y) == raster_pixel(
            *qr,
            s,
            config.dark_color,
            config.light_color,
            x,
            y,
        ) by {
        lemma_index_in_grid(side as int, side as int, x, y);
        lemma_fundamental_div_mod_converse(y * side + x, side as int, y, x);
    }
    r
}

/// A rendered raster has the light colour all along a border ring as wide as
/// one module, at every scale.
pub proof fn lemma_raster_border_is_light(
    qr: QrMatrix,
    scale: int,
    dark: [u8; 3],
    light: [u8; 3],
    x: int,
    y: int,
)
    requires
        scale >= 1,
        0 <= x < raster_side(qr.width as int, scale),
        0 <= y < raster_side(qr.width as int, scale),
        x < scale || y < scale || x >= raster_side(qr.width as int, scale) - scale || y
            >= raster_side(qr.width as int, scale) - scale,
    ensures
        raster_pixel(qr, scale, dark, light, x, y) == light,
{
    let w = qr.width as int;
    assert(raster_side(w, scale) - scale == (w + 1) * scale) by (nonlinear_arith);
    lemma_border_module(w, scale, x);
    lemma_border_module(w, scale, y);
}

/// The module column of a pixel column inside the first or the last module
/// of a raster row is 0 or `w + 1`.
proof fn lemma_border_module(w: int, scale: int, x: int)
    requires
        scale >= 1,
        w >= 0,
        0 <= x < (w + 2) * scale,
    ensures
        x < scale ==> x / scale == 0,
        x >= (w + 1) * scale ==> x / scale == w + 1,
        0 <= x / scale <= w + 1,
{
    assert((w + 2) * scale == (w + 1) * scale + scale) by (nonlinear_arith);
    vstd::arithmetic::div_mod::lemma_div_pos_is_pos(x, scale);
    if x < scale {
        vstd::arithmetic::div_mod::lemma_basic_div(x, scale);
    }
    if x >= (w + 1) * scale {
        lemma_fundamental_div_mod_converse(x, scale, w + 1, x - (w + 1) * scale);
    }
    vstd::arithmetic::div_mod::lemma_div_is_ordered(x, (w + 2) * scale - 1, scale);
    lemma_fundamental_div_mod_converse((w + 2) * scale - 1, scale, w + 1, scale - 1);
}

} // verus!
