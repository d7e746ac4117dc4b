use vstd::prelude::*;
use vstd::string::StringExecFns;
use vstd::string::StringSliceAdditionalSpecFns;

verus! {

/// A pixel position: `(x, y)`, measured from the top-left corner.
pub type Point = (usize, usize);

/// Largest width or height, in pixels, a raster may have. Keeps every index
/// computation inside `u32` range even on small machines.
pub const MAX_DIM: usize = 16384;

/// Largest coordinate a painting primitive accepts. Coordinates beyond the
/// raster are silently ignored, but they must stay small enough that the
/// interpolation arithmetic of `line` and `text` cannot overflow.
pub const MAX_COORD: usize = 1_000_000;

/// Red channel of a packed RGBA colour (most significant byte).
pub open spec fn spec_red(rgba: u32) -> u8 {
    ((rgba / 0x1000000) % 0x100) as u8
}

/// Green channel of a packed RGBA colour.
pub open spec fn spec_green(rgba: u32) -> u8 {
    ((rgba / 0x10000) % 0x100) as u8
}

/// Blue channel of a packed RGBA colour.
pub open spec fn spec_blue(rgba: u32) -> u8 {
    ((rgba / 0x100) % 0x100) as u8
}

/// Alpha channel of a packed RGBA colour (least significant byte).
pub open spec fn spec_alpha(rgba: u32) -> u8 {
    (rgba % 0x100) as u8
}

/// One blended colour channel. An alpha of 245 or more (about 96%) counts as
/// fully opaque and overwrites; 10 or less (about 4%) counts as fully
/// transparent and leaves the background; in between, the channels mix
/// linearly, rounded to the nearest byte (ties towards zero).
pub open spec fn blend_channel(a: u8, fg: u8, bg: u8) -> u8 {
    if a >= 245 {
        fg
    } else if a <= 10 {
        bg
    } else {
        (((a * fg + (255 - a) * bg + 127) as int) / 255) as u8
    }
}

/// Byte index of the first channel of pixel `(x, y)` in a row-major RGB
/// buffer of width `w`.
pub open spec fn pixel_base(w: int, x: int, y: int) -> int {
    (x + y * w) * 3
}

/// The buffer after blending one pixel: pixels outside the raster are
/// ignored, in-range pixels have their three channels blended with the
/// colour's alpha.
pub open spec fn colour_bytes(data: Seq<u8>, w: int, h: int, x: int, y: int, rgba: u32) -> Seq<
    u8,
> {
    if 0 <= x < w && 0 <= y < h {
        let base = pixel_base(w, x, y);
        let a = spec_alpha(rgba);
        data.update(base, blend_channel(a, spec_red(rgba), data[base])).update(
            base + 1,
            blend_channel(a, spec_green(rgba), data[base + 1]),
        ).update(base + 2, blend_channel(a, spec_blue(rgba), data[base + 2]))
    } else {
        data
    }
}

/// The background fill: `w * h` pixels, each carrying the red, green and blue
/// bytes of `rgba` (the alpha byte of a background is ignored).
pub open spec fn fill_bytes(area: int, rgba: u32) -> Seq<u8> {
    Seq::new(
        (area * 3) as nat,
        |k: int|
            if k % 3 == 0 {
                spec_red(rgba)
            } else if k % 3 == 1 {
                spec_green(rgba)
            } else {
                spec_blue(rgba)
            },
    )
}

/// The two points ordered by x coordinate; a tie keeps the given order.
pub open spec fn sort_by_x(p1: Point, p2: Point) -> (Point, Point) {
    if p1.0 > p2.0 {
        (p2, p1)
    } else {
        (p1, p2)
    }
}

/// The two points ordered by y coordinate; a tie keeps the given order.
pub open spec fn sort_by_y(p1: Point, p2: Point) -> (Point, Point) {
    if p1.1 > p2.1 {
        (p2, p1)
    } else {
        (p1, p2)
    }
}

/// The x-dominant walk from `a` to `b` (requires `a.0 <= b.0`): one sample
/// per column of `[a.0, b.0)`, the row interpolated along the slope and
/// rounded towards minus infinity.
pub open spec fn walk_x(a: Point, b: Point) -> Seq<Point> {
    Seq::new(
        (b.0 - a.0) as nat,
        |i: int|
            (
                (a.0 + i) as usize,
                (a.1 + (i * (b.1 - a.1)) / (b.0 - a.0)) as usize,
            ),
    )
}

/// The y-dominant walk from `c` to `d` (requires `c.1 <= d.1`): one sample
/// per row of `[c.1, d.1)`, the column interpolated along the inverse slope
/// and rounded towards minus infinity.
pub open spec fn walk_y(c: Point, d: Point) -> Seq<Point> {
    Seq::new(
        (d.1 - c.1) as nat,
        |i: int|
            (
                (c.0 + (i * (d.0 - c.0)) / (d.1 - c.1)) as usize,
                (c.1 + i) as usize,
            ),
    )
}

/// The sample points of the line from `p1` to `p2`: the points are first
/// ordered by x for a column walk, then by y for a row walk, so the result
/// does not depend on the order of the two endpoints.
pub open spec fn line_pixels(p1: Point, p2: Point) -> Seq<Point> {
    let s = sort_by_x(p1, p2);
    let t = sort_by_y(s.0, s.1);
    walk_x(s.0, s.1) + walk_y(t.0, t.1)
}

/// The sequence with adjacent duplicates removed (first of each run kept).
pub open spec fn dedup_adjacent(ps: Seq<Point>) -> Seq<Point>
    decreases ps.len(),
{
    if ps.len() <= 1 {
        ps
    } else if ps[ps.len() - 1] == ps[ps.len() - 2] {
        dedup_adjacent(ps.take(ps.len() - 1))
    } else {
        dedup_adjacent(ps.take(ps.len() - 1)).push(ps[ps.len() - 1])
    }
}

/// The buffer after blending `rgba` into each listed pixel in turn.
pub open spec fn paint_pixels(
    data: Seq<u8>,
    w: int,
    h: int,
    ps: Seq<Point>,
    rgba: u32,
) -> Seq<u8>
    decreases ps.len(),
{
    if ps.len() == 0 {
        data
    } else {
        paint_pixels(
            colour_bytes(data, w, h, ps[0].0 as int, ps[0].1 as int, rgba),
            w,
            h,
            ps.subrange(1, ps.len() as int),
            rgba,
        )
    }
}

/// The buffer after drawing the line from `p1` to `p2`: its sample points,
/// with adjacent duplicates removed, blended in order.
pub open spec fn line_bytes(
    data: Seq<u8>,
    w: int,
    h: int,
    p1: Point,
    p2: Point,
    rgba: u32,
) -> Seq<u8> {
    paint_pixels(data, w, h, dedup_adjacent(line_pixels(p1, p2)), rgba)
}

/// The glyph index a text byte selects: bytes beyond ASCII show as a space.
pub open spec fn glyph_code(b: u8) -> u8 {
    if b > 127 {
        32
    } else {
        b
    }
}

/// The colour one glyph pixel paints with: the RGB bytes of `rgba`, with the
/// alpha byte scaled by the glyph's ink intensity at that pixel.
pub open spec fn glyph_rgba(rgba: u32, intensity: u8) -> u32 {
    ((rgba / 0x100) * 0x100 + (spec_alpha(rgba) * intensity) / 255) as u32
}

/// Rows `0..n` of column `dx` of the glyph cell at `(gx, gy)`, blended top
/// to bottom.
pub open spec fn glyph_col_bytes(
    data: Seq<u8>,
    w: int,
    h: int,
    gx: int,
    gy: int,
    b: u8,
    dx: int,
    n: int,
    rgba: u32,
) -> Seq<u8>
    decreases n,
{
    if n <= 0 {
        data
    } else {
        colour_bytes(
            glyph_col_bytes(data, w, h, gx, gy, b, dx, n - 1, rgba),
            w,
            h,
            gx + dx,
            gy + (n - 1),
            glyph_rgba(rgba, crate::fonts::glyph_intensity(b, dx, n - 1)),
        )
    }
}

/// Columns `0..n` of the glyph cell at `(gx, gy)`, painted left to right,
/// each column over its full 17 rows.
pub open spec fn glyph_bytes(
    data: Seq<u8>,
    w: int,
    h: int,
    gx: int,
    gy: int,
    b: u8,
    n: int,
    rgba: u32,
) -> Seq<u8>
    decreases n,
{
    if n <= 0 {
        data
    } else {
        glyph_col_bytes(glyph_bytes(data, w, h, gx, gy, b, n - 1, rgba), w, h, gx, gy, b, n - 1, 17, rgba)
    }
}

/// The buffer after painting the byte string from cursor `(cx, cy)`: each
/// glyph advances the cursor 10 pixels right; a newline returns it to `x0`
/// and moves it 17 pixels down.
pub open spec fn text_bytes_at(
    data: Seq<u8>,
    w: int,
    h: int,
    x0: int,
    cx: int,
    cy: int,
    s: Seq<u8>,
    rgba: u32,
) -> Seq<u8>
    decreases s.len(),
{
    if s.len() == 0 {
        data
    } else if s[0] == 10 {
        text_bytes_at(data, w, h, x0, x0, cy + 17, s.skip(1), rgba)
    } else {
        text_bytes_at(
            glyph_bytes(data, w, h, cx, cy, glyph_code(s[0]), 10, rgba),
            w,
            h,
            x0,
            cx + 10,
            cy,
            s.skip(1),
            rgba,
        )
    }
}

/// The buffer after painting the byte string with its top-left corner at
/// `topleft`.
pub open spec fn text_bytes(
    data: Seq<u8>,
    w: int,
    h: int,
    topleft: Point,
    s: Seq<u8>,
    rgba: u32,
) -> Seq<u8> {
    text_bytes_at(data, w, h, topleft.0 as int, topleft.0 as int, topleft.1 as int, s, rgba)
}

/// The buffer after blending, into every pixel of `region`, the colour that
/// `csel` picks for that pixel.
pub open spec fn painted_select_bytes(
    data: Seq<u8>,
    w: int,
    region: spec_fn(int, int) -> bool,
    csel: spec_fn(int, int) -> u32,
) -> Seq<u8> {
    Seq::new(
        data.len(),
        |k: int|
            {
                let px = (k / 3) % w;
                let py = (k / 3) / w;
                if region(px, py) {
                    blend_channel(spec_alpha(csel(px, py)), chan_of(csel(px, py), k % 3), data[k])
                } else {
                    data[k]
                }
            },
    )
}

/// The colour rule of a text outline box of `count` glyphs at `(tx, ty)`:
/// the one-pixel border paints `rgba`, the interior paints the raster's
/// background colour.
pub open spec fn outline_csel(tx: int, ty: int, count: int, rgba: u32, bg: u32) -> spec_fn(
    int,
    int,
) -> u32 {
    |px: int, py: int|
        if py == ty || py == ty + 18 || px == tx || px == tx + count * 10 + 1 {
            rgba
        } else {
            bg
        }
}

/// The buffer after painting a text outline box: the box of `count` glyphs
/// plus a one-pixel border, border in `rgba`, interior in `bg`.
pub open spec fn outline_bytes(
    data: Seq<u8>,
    w: int,
    tx: int,
    ty: int,
    count: int,
    rgba: u32,
    bg: u32,
) -> Seq<u8> {
    painted_select_bytes(
        data,
        w,
        |px: int, py: int| tx <= px <= tx + count * 10 + 1 && ty <= py <= ty + 18,
        outline_csel(tx, ty, count, rgba, bg),
    )
}

/// The buffer after painting the solid backing rectangle of a text of
/// `count` glyphs at `topleft`: `count * 10` columns by 17 rows.
pub open spec fn backing_bytes(
    data: Seq<u8>,
    w: int,
    topleft: Point,
    count: int,
    rgba: u32,
) -> Seq<u8> {
    painted_region_bytes(
        data,
        w,
        |px: int, py: int| topleft.0 <= px < topleft.0 + count * 10 && topleft.1 <= py < topleft.1
            + 17,
        rgba,
    )
}

/// A glyph column whose x position lies beyond the raster, or whose cell
/// starts below it, paints nothing.
proof fn lemma_glyph_col_noop(
    data: Seq<u8>,
    w: int,
    h: int,
    gx: int,
    gy: int,
    b: u8,
    dx: int,
    n: int,
    rgba: u32,
)
    requires
        gx + dx >= w || gy >= h,
        gx >= 0,
        gy >= 0,
    ensures
        glyph_col_bytes(data, w, h, gx, gy, b, dx, n, rgba) == data,
    decreases n,
{
    if n > 0 {
        lemma_glyph_col_noop(data, w, h, gx, gy, b, dx, n - 1, rgba);
    }
}

/// A glyph cell that starts at or beyond the right or bottom edge of the
/// raster paints nothing.
proof fn lemma_glyph_noop(
    data: Seq<u8>,
    w: int,
    h: int,
    gx: int,
    gy: int,
    b: u8,
    n: int,
    rgba: u32,
)
    requires
        gx >= w || gy >= h,
        gx >= 0,
        gy >= 0,
    ensures
        glyph_bytes(data, w, h, gx, gy, b, n, rgba) == data,
    decreases n,
{
    if n > 0 {
        lemma_glyph_noop(data, w, h, gx, gy, b, n - 1, rgba);
        lemma_glyph_col_noop(data, w, h, gx, gy, b, n - 1, 17, rgba);
    }
}

/// A selected region that holds no pixel of the raster paints nothing.
proof fn lemma_paint_select_invisible(
    data: Seq<u8>,
    w: int,
    h: int,
    r: spec_fn(int, int) -> bool,
    csel: spec_fn(int, int) -> u32,
)
    requires
        w >= 0,
        h >= 0,
        data.len() == w * h * 3,
        forall|px: int, py: int| #[trigger] r(px, py) ==> px >= w || py >= h,
    ensures
        painted_select_bytes(data, w, r, csel) == data,
{
    if 0 < w && 0 < h {
        assert forall|k: int|
            0 <= k < data.len() implies painted_select_bytes(data, w, r, csel)[k] == data[k] by {
            lemma_decode(w, h, k);
        }
        assert(painted_select_bytes(data, w, r, csel) =~= data);
    } else {
        assert(w * h * 3 == 0) by (nonlinear_arith)
            requires
                0 <= w && 0 <= h && (w == 0 || h == 0),
        ;
        assert(painted_select_bytes(data, w, r, csel) =~= data);
    }
}

/// Two selected regions that agree on every pixel of the raster, with the
/// same colour rule, paint the same bytes.
proof fn lemma_paint_select_visible_congruence(
    data: Seq<u8>,
    w: int,
    h: int,
    r1: spec_fn(int, int) -> bool,
    r2: spec_fn(int, int) -> bool,
    csel: spec_fn(int, int) -> u32,
)
    requires
        w >= 0,
        h >= 0,
        data.len() == w * h * 3,
        forall|px: int, py: int|
            0 <= px < w && 0 <= py < h ==> (#[trigger] r1(px, py) <==> #[trigger] r2(px, py)),
    ensures
        painted_select_bytes(data, w, r1, csel) == painted_select_bytes(data, w, r2, csel),
{
    if 0 < w && 0 < h {
        assert forall|k: int|
            0 <= k < data.len() implies painted_select_bytes(data, w, r1, csel)[k]
            == painted_select_bytes(data, w, r2, csel)[k] by {
            lemma_decode(w, h, k);
        }
        assert(painted_select_bytes(data, w, r1, csel) =~= painted_select_bytes(data, w, r2, csel));
    } else {
        assert(w * h * 3 == 0) by (nonlinear_arith)
            requires
                0 <= w && 0 <= h && (w == 0 || h == 0),
        ;
        assert(painted_select_bytes(data, w, r1, csel) =~= painted_select_bytes(data, w, r2, csel));
    }
}

/// Two regions that agree on every pixel of the raster paint the same
/// bytes.
proof fn lemma_paint_visible_congruence(
    data: Seq<u8>,
    w: int,
    h: int,
    r1: spec_fn(int, int) -> bool,
    r2: spec_fn(int, int) -> bool,
    rgba: u32,
)
    requires
        w >= 0,
        h >= 0,
        data.len() == w * h * 3,
        forall|px: int, py: int|
            0 <= px < w && 0 <= py < h ==> (#[trigger] r1(px, py) <==> #[trigger] r2(px, py)),
    ensures
        painted_region_bytes(data, w, r1, rgba) == painted_region_bytes(data, w, r2, rgba),
{
    if 0 < w && 0 < h {
        assert forall|k: int|
            0 <= k < data.len() implies painted_region_bytes(data, w, r1, rgba)[k]
            == painted_region_bytes(data, w, r2, rgba)[k] by {
            lemma_decode(w, h, k);
        }
        assert(painted_region_bytes(data, w, r1, rgba) =~= painted_region_bytes(data, w, r2, rgba));
    } else {
        assert(w * h * 3 == 0) by (nonlinear_arith)
            requires
                0 <= w && 0 <= h && (w == 0 || h == 0),
        ;
        assert(painted_region_bytes(data, w, r1, rgba) =~= painted_region_bytes(data, w, r2, rgba));
    }
}

/// Blending one more pixel with its selected colour extends the painted
/// region by that pixel.
proof fn lemma_paint_select_extend(
    data: Seq<u8>,
    w: int,
    h: int,
    r1: spec_fn(int, int) -> bool,
    r2: spec_fn(int, int) -> bool,
    csel: spec_fn(int, int) -> u32,
    x: int,
    y: int,
)
    requires
        0 < w,
        0 < h,
        data.len() == w * h * 3,
        !r1(x, y),
        forall|px: int, py: int| #[trigger] r2(px, py) <==> r1(px, py) || (px == x && py == y),
    ensures
        colour_bytes(painted_select_bytes(data, w, r1, csel), w, h, x, y, csel(x, y))
            == painted_select_bytes(data, w, r2, csel),
{
    let lhs = colour_bytes(painted_select_bytes(data, w, r1, csel), w, h, x, y, csel(x, y));
    let rhs = painted_select_bytes(data, w, r2, csel);
    let inner = painted_select_bytes(data, w, r1, csel);
    assert(inner.len() == data.len());
    if 0 <= x < w && 0 <= y < h {
        assert(0 <= (x + y * w) * 3 && (x + y * w) * 3 + 2 < w * h * 3) by (nonlinear_arith)
            requires
                0 <= x < w,
                0 <= y < h,
        ;
    }
    assert forall|k: int| 0 <= k < data.len() implies lhs[k] == rhs[k] by {
        lemma_decode(w, h, k);
        let px = (k / 3) % w;
        let py = (k / 3) / w;
        if 0 <= x < w && 0 <= y < h {
            lemma_encode(w, h, x, y, 0);
            lemma_encode(w, h, x, y, 1);
            lemma_encode(w, h, x, y, 2);
            assert((x + y * w) * 3 + 2 < w * h * 3) by (nonlinear_arith)
                requires
                    0 <= x < w,
                    0 <= y < h,
            ;
            let base = pixel_base(w, x, y);
            if px == x && py == y {
                assert(base <= k <= base + 2);
                assert(inner[k] == data[k]);
            } else {
                assert(k != base && k != base + 1 && k != base + 2);
                assert(lhs[k] == inner[k]);
                assert(rhs[k] == inner[k]);
            }
        } else {
            assert(lhs[k] == inner[k]);
            assert(rhs[k] == inner[k]);
        }
    }
    assert(lhs =~= rhs);
}

/// Painting two disjoint regions, each pixel with its selected colour, one
/// after the other equals painting their union in one pass.
proof fn lemma_paint_select_compose(
    data: Seq<u8>,
    w: int,
    r1: spec_fn(int, int) -> bool,
    r2: spec_fn(int, int) -> bool,
    r3: spec_fn(int, int) -> bool,
    csel: spec_fn(int, int) -> u32,
)
    requires
        forall|px: int, py: int| !(#[trigger] r1(px, py) && #[trigger] r2(px, py)),
        forall|px: int, py: int| #[trigger] r3(px, py) <==> r1(px, py) || r2(px, py),
    ensures
        painted_select_bytes(painted_select_bytes(data, w, r1, csel), w, r2, csel)
            == painted_select_bytes(data, w, r3, csel),
{
    let inner = painted_select_bytes(data, w, r1, csel);
    let lhs = painted_select_bytes(inner, w, r2, csel);
    let rhs = painted_select_bytes(data, w, r3, csel);
    assert forall|k: int| 0 <= k < data.len() implies lhs[k] == rhs[k] by {
        let px = (k / 3) % w;
        let py = (k / 3) / w;
        assert(!(r1(px, py) && r2(px, py)));
        assert(r3(px, py) <==> r1(px, py) || r2(px, py));
    }
    assert(lhs =~= rhs);
}

/// Two descriptions of the same region, with the same colour rule on it,
/// paint the same bytes.
proof fn lemma_paint_select_congruence(
    data: Seq<u8>,
    w: int,
    r1: spec_fn(int, int) -> bool,
    r2: spec_fn(int, int) -> bool,
    csel: spec_fn(int, int) -> u32,
)
    requires
        forall|px: int, py: int| #[trigger] r1(px, py) <==> #[trigger] r2(px, py),
    ensures
        painted_select_bytes(data, w, r1, csel) == painted_select_bytes(data, w, r2, csel),
{
    assert(painted_select_bytes(data, w, r1, csel) =~= painted_select_bytes(data, w, r2, csel));
}

/// Painting an empty selected region changes nothing.
proof fn lemma_paint_select_empty(
    data: Seq<u8>,
    w: int,
    r: spec_fn(int, int) -> bool,
    csel: spec_fn(int, int) -> u32,
)
    requires
        forall|px: int, py: int| !#[trigger] r(px, py),
    ensures
        painted_select_bytes(data, w, r, csel) == data,
{
    assert(painted_select_bytes(data, w, r, csel) =~= data);
}

/// Painting a pixel list and then one more pixel is painting the extended
/// list.
proof fn lemma_paint_pixels_push(
    data: Seq<u8>,
    w: int,
    h: int,
    ps: Seq<Point>,
    p: Point,
    rgba: u32,
)
    ensures
        paint_pixels(data, w, h, ps.push(p), rgba)
            == colour_bytes(paint_pixels(data, w, h, ps, rgba), w, h, p.0 as int, p.1 as int, rgba),
    decreases ps.len(),
{
    if ps.len() == 0 {
        assert(ps.push(p)[0] == p);
        assert(ps.push(p).subrange(1, 1) =~= Seq::<Point>::empty());
        assert(paint_pixels(data, w, h, ps.push(p), rgba) == paint_pixels(
            colour_bytes(data, w, h, p.0 as int, p.1 as int, rgba),
            w,
            h,
            Seq::<Point>::empty(),
            rgba,
        ));
        assert(paint_pixels(data, w, h, ps, rgba) == data);
    } else {
        assert(ps.push(p)[0] == ps[0]);
        assert(ps.push(p).subrange(1, ps.len() as int + 1) =~= ps.subrange(
            1,
            ps.len() as int,
        ).push(p));
        let data2 = colour_bytes(data, w, h, ps[0].0 as int, ps[0].1 as int, rgba);
        lemma_paint_pixels_push(data2, w, h, ps.subrange(1, ps.len() as int), p, rgba);
        assert(paint_pixels(data, w, h, ps.push(p), rgba) == paint_pixels(
            data2,
            w,
            h,
            ps.subrange(1, ps.len() as int).push(p),
            rgba,
        ));
        assert(paint_pixels(data, w, h, ps, rgba) == paint_pixels(
            data2,
            w,
            h,
            ps.subrange(1, ps.len() as int),
            rgba,
        ));
    }
}

/// The two line walks visit the same pixels whichever way the endpoints are
/// given.
pub proof fn lemma_line_pixels_symmetric(p1: Point, p2: Point)
    ensures
        line_pixels(p1, p2) == line_pixels(p2, p1),
{
    if p1.0 == p2.0 {
        assert(walk_x(sort_by_x(p1, p2).0, sort_by_x(p1, p2).1) =~= Seq::<Point>::empty());
        assert(walk_x(sort_by_x(p2, p1).0, sort_by_x(p2, p1).1) =~= Seq::<Point>::empty());
        if p1.1 == p2.1 {
            assert(line_pixels(p1, p2) =~= line_pixels(p2, p1));
        } else {
            assert(line_pixels(p1, p2) =~= line_pixels(p2, p1));
        }
    } else {
        assert(line_pixels(p1, p2) =~= line_pixels(p2, p1));
    }
}

/// Whichever way its endpoints are given, a line paints the same buffer.
pub proof fn lemma_line_symmetric(
    data: Seq<u8>,
    w: int,
    h: int,
    p1: Point,
    p2: Point,
    rgba: u32,
)
    ensures
        line_bytes(data, w, h, p1, p2, rgba) == line_bytes(data, w, h, p2, p1, rgba),
{
    lemma_line_pixels_symmetric(p1, p2);
}

/// A fully opaque colour (alpha byte 0xFF) overwrites the pixel's three
/// channel bytes with the colour's channels and touches nothing else.
pub proof fn lemma_colour_opaque(data: Seq<u8>, w: int, h: int, x: int, y: int, rgba: u32)
    requires
        spec_alpha(rgba) == 0xFF,
        0 <= x < w,
        0 <= y < h,
        data.len() == w * h * 3,
    ensures
        colour_bytes(data, w, h, x, y, rgba).len() == data.len(),
        colour_bytes(data, w, h, x, y, rgba)[pixel_base(w, x, y)] == spec_red(rgba),
        colour_bytes(data, w, h, x, y, rgba)[pixel_base(w, x, y) + 1] == spec_green(rgba),
        colour_bytes(data, w, h, x, y, rgba)[pixel_base(w, x, y) + 2] == spec_blue(rgba),
        forall|k: int|
            0 <= k < data.len() && !(pixel_base(w, x, y) <= k <= pixel_base(w, x, y) + 2)
                ==> colour_bytes(data, w, h, x, y, rgba)[k] == data[k],
{
    assert(0 <= (x + y * w) * 3 && (x + y * w) * 3 + 2 < w * h * 3) by (nonlinear_arith)
        requires
            0 <= x < w,
            0 <= y < h,
    ;
}

/// A fully transparent colour (alpha byte 0x00) leaves the buffer
/// unchanged.
pub proof fn lemma_colour_transparent(data: Seq<u8>, w: int, h: int, x: int, y: int, rgba: u32)
    requires
        spec_alpha(rgba) == 0,
        data.len() == w * h * 3,
    ensures
        colour_bytes(data, w, h, x, y, rgba) == data,
{
    if 0 <= x < w && 0 <= y < h {
        assert(0 <= (x + y * w) * 3 && (x + y * w) * 3 + 2 < w * h * 3) by (nonlinear_arith)
            requires
                0 <= x < w,
                0 <= y < h,
        ;
        assert(colour_bytes(data, w, h, x, y, rgba) =~= data);
    }
}

/// Floor division: the quotient rounded towards minus infinity, as `/` on
/// mathematical integers behaves for a positive divisor.
fn floor_div_i64(n: i64, d: i64) -> (r: i64)
    requires
        0 < d,
        -1_000_000_000_000_000 <= n <= 1_000_000_000_000_000,
    ensures
        r as int == n as int / d as int,
{
    if n >= 0 {
        let q = (n as u64) / (d as u64);
        q as i64
    } else {
        let m = (-n) as u64;
        let du = d as u64;
        let q = m / du;
        let rem = m % du;
        proof {
            vstd::arithmetic::div_mod::lemma_fundamental_div_mod(m as int, du as int);
            vstd::arithmetic::div_mod::lemma_mod_bound(m as int, du as int);
            assert(m == du * (q as int) + rem);
            assert(n == -(m as int));
            assert(-((du as int) * (q as int) + rem) == (-(q as int)) * (du as int) + 0 - rem)
                by (nonlinear_arith);
            assert(-((du as int) * (q as int) + rem) == (-(q as int) - 1) * (du as int) + (du
                - rem)) by (nonlinear_arith);
            if rem == 0 {
                vstd::arithmetic::div_mod::lemma_fundamental_div_mod_converse(
                    n as int,
                    d as int,
                    -(q as int),
                    0,
                );
            } else {
                vstd::arithmetic::div_mod::lemma_fundamental_div_mod_converse(
                    n as int,
                    d as int,
                    -(q as int) - 1,
                    d - rem,
                );
            }
        }
        if rem == 0 {
            -(q as i64)
        } else {
            -(q as i64) - 1
        }
    }
}

/// An interpolation step stays between 0 and the full rise: for `0 <= i < d`,
/// `(i * m) / d` lies between `min(0, m)` and `max(0, m)`.
pub(crate) proof fn lemma_interp_bounds(i: int, m: int, d: int)
    requires
        0 < d,
        0 <= i < d,
    ensures
        vstd::math::min(0, m) <= (i * m) / d <= vstd::math::max(0, m),
{
    if m >= 0 {
        assert(0 <= i * m <= d * m) by (nonlinear_arith)
            requires
                0 <= i < d,
                0 <= m,
        ;
        vstd::arithmetic::div_mod::lemma_div_is_ordered(0, i * m, d);
        vstd::arithmetic::div_mod::lemma_div_is_ordered(i * m, d * m, d);
        vstd::arithmetic::div_mod::lemma_div_multiples_vanish(m, d);
    } else {
        assert(d * m <= i * m <= 0) by (nonlinear_arith)
            requires
                0 <= i < d,
                m < 0,
        ;
        vstd::arithmetic::div_mod::lemma_div_is_ordered(d * m, i * m, d);
        vstd::arithmetic::div_mod::lemma_div_is_ordered(i * m, 0, d);
        vstd::arithmetic::div_mod::lemma_div_multiples_vanish(m, d);
    }
}

/// A raster image: a flat row-major RGB byte buffer plus its dimensions and
/// the colour it was cleared with.
#[derive(Debug)]
pub struct Raster {
    /// Width in pixels.
    pub width: usize,
    /// Height in pixels.
    pub height: usize,
    /// The colour the raster was cleared with.
    pub background: u32,
    /// Row-major RGB bytes, three per pixel.
    pub data: Vec<u8>,
}

impl Raster {
    /// The raster is consistent: the byte buffer holds exactly three bytes
    /// per pixel and the dimensions respect the size cap.
    pub open spec fn wf(&self) -> bool {
        &&& self.width <= MAX_DIM
        &&& self.height <= MAX_DIM
        &&& self.data@.len() == self.width * self.height * 3
    }

    pub open spec fn spec_width(&self) -> usize {
        self.width
    }

    pub open spec fn spec_height(&self) -> usize {
        self.height
    }

    pub open spec fn spec_background(&self) -> u32 {
        self.background
    }

    pub open spec fn bytes(&self) -> Seq<u8> {
        self.data@
    }

    /// Two rasters agree on everything but the pixel bytes.
    pub open spec fn same_shape(&self, other: &Raster) -> bool {
        &&& self.width == other.width
        &&& self.height == other.height
        &&& self.background == other.background
    }

    pub fn width(&self) -> (r: usize)
        ensures
            r == self.spec_width(),
    {
        self.width
    }

    pub fn height(&self) -> (r: usize)
        ensures
            r == self.spec_height(),
    {
        self.height
    }

    pub fn background(&self) -> (r: u32)
        ensures
            r == self.spec_background(),
    {
        self.background
    }

    pub fn buffer(&self) -> (r: &Vec<u8>)
        ensures
            r@ == self.bytes(),
    {
        &self.data
    }

    /// A fresh raster cleared to the background colour.
    pub fn new(width: usize, height: usize, background: u32) -> (r: Raster)
        requires
            width <= MAX_DIM,
            height <= MAX_DIM,
        ensures
            r.wf(),
            r.spec_width() == width,
            r.spec_height() == height,
            r.spec_background() == background,
            r.bytes() == fill_bytes(width as int * height as int, background),
    {
        proof {
            assert(width * height <= MAX_DIM * MAX_DIM && width * height * 3 == (width * height)
                * 3) by (nonlinear_arith)
                requires
                    width <= MAX_DIM,
                    height <= MAX_DIM,
            ;
        }
        let mut data: Vec<u8> = Vec::new();
        let area = width * height;
        colour_buffer(&mut data, area, background);
        proof {
            assert(data@ =~= fill_bytes(width as int * height as int, background));
        }
        Raster { width, height, background, data }
    }

    /// Blend one pixel of the raster with `rgba`. Pixels outside the raster
    /// are silently ignored.
    pub fn colour(&mut self, x: usize, y: usize, rgba: u32)
        requires
            old(self).wf(),
        ensures
            final(self).wf(),
            final(self).same_shape(old(self)),
            final(self).bytes() == colour_bytes(
                old(self).bytes(),
                old(self).spec_width() as int,
                old(self).spec_height() as int,
                x as int,
                y as int,
                rgba,
            ),
    {
        if x >= self.width || y >= self.height {
            return ;
        }
        proof {
            lemma_pixel_index(self.width as int, self.height as int, x as int, y as int);
        }
        let base = (x + y * self.width) * 3;
        let a = (rgba % 0x100) as u8;
        let red = ((rgba / 0x1000000) % 0x100) as u8;
        let green = ((rgba / 0x10000) % 0x100) as u8;
        let blue = ((rgba / 0x100) % 0x100) as u8;
        let b0 = self.data[base];
        self.data[base] = blend_exec(a, red, b0);
        let b1 = self.data[base + 1];
        self.data[base + 1] = blend_exec(a, green, b1);
        let b2 = self.data[base + 2];
        self.data[base + 2] = blend_exec(a, blue, b2);
    }

    /// Blend the pixel at `p` with `rgba`.
    pub fn colour_point(&mut self, p: Point, rgba: u32)
        requires
            old(self).wf(),
        ensures
            final(self).wf(),
            final(self).same_shape(old(self)),
            final(self).bytes() == colour_bytes(
                old(self).bytes(),
                old(self).spec_width() as int,
                old(self).spec_height() as int,
                p.0 as int,
                p.1 as int,
                rgba,
            ),
    {
        self.colour(p.0, p.1, rgba);
    }

    /// Blend one vertical run of pixels: column `x`, rows `y1..=y2`.
    fn fill_col(&mut self, x: usize, y1: usize, y2: usize, rgba: u32)
        requires
            old(self).wf(),
            y1 <= y2 <= MAX_COORD,
        ensures
            final(self).wf(),
            final(self).same_shape(old(self)),
            final(self).bytes() == painted_region_bytes(
                old(self).bytes(),
                old(self).spec_width() as int,
                |px: int, py: int| px == x && y1 <= py <= y2,
                rgba,
            ),
    {
        let ghost w = self.width as int;
        let ghost h = self.height as int;
        let ghost orig = self.bytes();
        if self.width == 0 || self.height == 0 {
            proof {
                assert(painted_region_bytes(
                    orig,
                    w,
                    |px: int, py: int| px == x && y1 <= py <= y2,
                    rgba,
                ) =~= orig);
            }
            return ;
        }
        let mut y = y1;
        proof {
            lemma_paint_empty(orig, w, |px: int, py: int| px == x && y1 <= py < y1, rgba);
        }
        while y <= y2
            invariant
                self.wf(),
                self.same_shape(old(self)),
                0 < self.spec_width(),
                0 < self.spec_height(),
                orig == old(self).bytes(),
                w == self.spec_width() as int,
                h == self.spec_height() as int,
                y1 <= y <= y2 + 1,
                y2 <= MAX_COORD,
                self.bytes() == painted_region_bytes(
                    orig,
                    w,
                    |px: int, py: int| px == x && y1 <= py < y,
                    rgba,
                ),
            decreases y2 + 1 - y,
        {
            self.colour(x, y, rgba);
            proof {
                lemma_paint_extend(
                    orig,
                    w,
                    h,
                    |px: int, py: int| px == x && y1 <= py < y,
                    |px: int, py: int| px == x && y1 <= py < y + 1,
                    x as int,
                    y as int,
                    rgba,
                );
            }
            y = y + 1;
        }
        proof {
            lemma_paint_congruence(
                orig,
                w,
                |px: int, py: int| px == x && y1 <= py < y,
                |px: int, py: int| px == x && y1 <= py <= y2,
                rgba,
            );
        }
    }

    /// Fill the axis-aligned bounding box of the two corners, given by
    /// minimum/maximum x and y, blending each pixel of the box once.
    /// Corners may come in any order; the box is normalised first.
    pub fn rect(&mut self, x1: usize, y1: usize, x2: usize, y2: usize, rgba: u32)
        requires
            old(self).wf(),
            x1 <= MAX_COORD,
            y1 <= MAX_COORD,
            x2 <= MAX_COORD,
            y2 <= MAX_COORD,
        ensures
            final(self).wf(),
            final(self).same_shape(old(self)),
            final(self).bytes() == rect_bytes(
                old(self).bytes(),
                old(self).spec_width() as int,
                vstd::math::min(x1 as int, x2 as int),
                vstd::math::min(y1 as int, y2 as int),
                vstd::math::max(x1 as int, x2 as int),
                vstd::math::max(y1 as int, y2 as int),
                rgba,
            ),
    {
        let lox = if x1 > x2 {
            x2
        } else {
            x1
        };
        let hix = if x1 > x2 {
            x1
        } else {
            x2
        };
        let loy = if y1 > y2 {
            y2
        } else {
            y1
        };
        let hiy = if y1 > y2 {
            y1
        } else {
            y2
        };
        let ghost w = self.width as int;
        let ghost orig = self.bytes();
        let mut x = lox;
        proof {
            lemma_paint_empty(
                orig,
                w,
                |px: int, py: int| lox <= px < lox && loy <= py <= hiy,
                rgba,
            );
        }
        while x <= hix
            invariant
                self.wf(),
                self.same_shape(old(self)),
                orig == old(self).bytes(),
                w == self.spec_width() as int,
                lox <= x <= hix + 1,
                hix <= MAX_COORD,
                loy <= hiy <= MAX_COORD,
                self.bytes() == painted_region_bytes(
                    orig,
                    w,
                    |px: int, py: int| lox <= px < x && loy <= py <= hiy,
                    rgba,
                ),
            decreases hix + 1 - x,
        {
            let ghost before = self.bytes();
            self.fill_col(x, loy, hiy, rgba);
            proof {
                lemma_paint_compose(
                    orig,
                    w,
                    |px: int, py: int| lox <= px < x && loy <= py <= hiy,
                    |px: int, py: int| px == x && loy <= py <= hiy,
                    |px: int, py: int| lox <= px < x + 1 && loy <= py <= hiy,
                    rgba,
                );
            }
            x = x + 1;
        }
        proof {
            lemma_paint_congruence(
                orig,
                w,
                |px: int, py: int| lox <= px < x && loy <= py <= hiy,
                |px: int, py: int| lox <= px <= hix && loy <= py <= hiy,
                rgba,
            );
        }
    }

    /// Draw the line between the two points: walk the columns the segment
    /// spans, then the rows, interpolating the other coordinate along the
    /// slope (rounded down), drop adjacent duplicate samples and blend each
    /// remaining sample once. Either endpoint order paints the same pixels.
    pub fn line(&mut self, p1: Point, p2: Point, rgba: u32)
        requires
            old(self).wf(),
            p1.0 <= MAX_COORD,
            p1.1 <= MAX_COORD,
            p2.0 <= MAX_COORD,
            p2.1 <= MAX_COORD,
        ensures
            final(self).wf(),
            final(self).same_shape(old(self)),
            final(self).bytes() == line_bytes(
                old(self).bytes(),
                old(self).spec_width() as int,
                old(self).spec_height() as int,
                p1,
                p2,
                rgba,
            ),
    {
        let (a, b) = if p1.0 > p2.0 {
            (p2, p1)
        } else {
            (p1, p2)
        };
        let (c, d) = if a.1 > b.1 {
            (b, a)
        } else {
            (a, b)
        };
        proof {
            assert(sort_by_x(p1, p2) == (a, b));
            assert(sort_by_y(a, b) == (c, d));
        }
        let mut pixels: Vec<Point> = Vec::new();
        if b.0 > a.0 {
            let span = b.0 - a.0;
            let dx = span as i64;
            let rise: i64 = b.1 as i64 - a.1 as i64;
            let mut i: usize = 0;
            while i < span
                invariant
                    pixels@ == walk_x(a, b).take(i as int),
                    0 <= i <= span,
                    span == b.0 - a.0,
                    dx == span as i64,
                    rise == b.1 - a.1,
                    a.0 <= b.0 <= MAX_COORD,
                    a.1 <= MAX_COORD,
                    b.1 <= MAX_COORD,
                decreases span - i,
            {
                proof {
                    assert((i as i64) * rise <= 1_000_000_000_000 && (i as i64) * rise
                        >= -1_000_000_000_000) by (nonlinear_arith)
                        requires
                            0 <= i <= 1_000_000,
                            -1_000_000 <= rise <= 1_000_000,
                    ;
                }
                let off = floor_div_i64((i as i64) * rise, dx);
                proof {
                    lemma_interp_bounds(i as int, rise as int, dx as int);
                }
                let y = (a.1 as i64 + off) as usize;
                let px: Point = (a.0 + i, y);
                proof {
                    assert(walk_x(a, b)[i as int] == px);
                    assert(walk_x(a, b).take(i as int + 1) =~= walk_x(a, b).take(i as int).push(
                        px,
                    ));
                }
                pixels.push(px);
                i = i + 1;
            }
            proof {
                assert(pixels@ =~= walk_x(a, b));
            }
        } else {
            proof {
                assert(pixels@ =~= walk_x(a, b));
            }
        }
        if d.1 > c.1 {
            let span = d.1 - c.1;
            let dyy = span as i64;
            let run: i64 = d.0 as i64 - c.0 as i64;
            let mut i: usize = 0;
            while i < span
                invariant
                    pixels@ == walk_x(a, b) + walk_y(c, d).take(i as int),
                    0 <= i <= span,
                    span == d.1 - c.1,
                    dyy == span as i64,
                    run == d.0 - c.0,
                    c.1 <= d.1 <= MAX_COORD,
                    c.0 <= MAX_COORD,
                    d.0 <= MAX_COORD,
                decreases span - i,
            {
                proof {
                    assert((i as i64) * run <= 1_000_000_000_000 && (i as i64) * run
                        >= -1_000_000_000_000) by (nonlinear_arith)
                        requires
                            0 <= i <= 1_000_000,
                            -1_000_000 <= run <= 1_000_000,
                    ;
                }
                let off = floor_div_i64((i as i64) * run, dyy);
                proof {
                    lemma_interp_bounds(i as int, run as int, dyy as int);
                }
                let x = (c.0 as i64 + off) as usize;
                let px: Point = (x, c.1 + i);
                proof {
                    assert(walk_y(c, d)[i as int] == px);
                    assert(walk_y(c, d).take(i as int + 1) =~= walk_y(c, d).take(i as int).push(
                        px,
                    ));
                    assert(walk_x(a, b) + walk_y(c, d).take(i as int + 1) =~= (walk_x(a, b)
                        + walk_y(c, d).take(i as int)).push(px));
                }
                pixels.push(px);
                i = i + 1;
            }
        } else {
            proof {
                assert(walk_y(c, d).take(0) =~= Seq::<Point>::empty());
                assert(pixels@ =~= walk_x(a, b) + walk_y(c, d).take(0));
            }
        }
        proof {
            assert(walk_y(c, d).take(walk_y(c, d).len() as int) =~= walk_y(c, d));
            assert(pixels@ == line_pixels(p1, p2));
        }
        // drop adjacent duplicate samples
        let n = pixels.len();
        let mut keep: Vec<Point> = Vec::new();
        let mut j: usize = 0;
        while j < n
            invariant
                keep@ == dedup_adjacent(pixels@.take(j as int)),
                0 <= j <= n,
                n == pixels@.len(),
            decreases n - j,
        {
            let p = pixels[j];
            let fresh = if j == 0 {
                true
            } else {
                let prev = pixels[j - 1];
                !(prev.0 == p.0 && prev.1 == p.1)
            };
            proof {
                assert(pixels@.take(j as int + 1).take(j as int) =~= pixels@.take(j as int));
                if j == 0 {
                    assert(pixels@.take(1) =~= dedup_adjacent(pixels@.take(0)).push(p));
                }
            }
            if fresh {
                keep.push(p);
            }
            j = j + 1;
        }
        proof {
            assert(pixels@.take(n as int) =~= pixels@);
        }
        // blend each remaining sample in order
        let ghost w = self.width as int;
        let ghost h = self.height as int;
        let ghost orig = self.bytes();
        let m = keep.len();
        let mut t: usize = 0;
        proof {
            assert(keep@.take(0) =~= Seq::<Point>::empty());
        }
        while t < m
            invariant
                self.wf(),
                self.same_shape(old(self)),
                orig == old(self).bytes(),
                w == self.spec_width() as int,
                h == self.spec_height() as int,
                0 <= t <= m,
                m == keep@.len(),
                self.bytes() == paint_pixels(orig, w, h, keep@.take(t as int), rgba),
            decreases m - t,
        {
            let p = keep[t];
            self.colour(p.0, p.1, rgba);
            proof {
                assert(keep@.take(t as int + 1) =~= keep@.take(t as int).push(p));
                lemma_paint_pixels_push(orig, w, h, keep@.take(t as int), p, rgba);
            }
            t = t + 1;
        }
        proof {
            assert(keep@.take(m as int) =~= keep@);
        }
    }

    /// Paint one glyph cell: 10 columns by 17 rows at `(gx, gy)`, each pixel
    /// blended with the text colour scaled by the glyph's ink intensity.
    fn paint_glyph(&mut self, gx: usize, gy: usize, b: u8, rgba: u32)
        requires
            old(self).wf(),
            gx <= 2 * MAX_COORD,
            gy <= 2 * MAX_COORD,
        ensures
            final(self).wf(),
            final(self).same_shape(old(self)),
            final(self).bytes() == glyph_bytes(
                old(self).bytes(),
                old(self).spec_width() as int,
                old(self).spec_height() as int,
                gx as int,
                gy as int,
                b,
                10,
                rgba,
            ),
    {
        let ghost w = self.width as int;
        let ghost h = self.height as int;
        let ghost orig = self.bytes();
        let mut dx: usize = 0;
        while dx < 10
            invariant
                self.wf(),
                self.same_shape(old(self)),
                orig == old(self).bytes(),
                w == self.spec_width() as int,
                h == self.spec_height() as int,
                gx <= 2 * MAX_COORD,
                gy <= 2 * MAX_COORD,
                0 <= dx <= 10,
                self.bytes() == glyph_bytes(orig, w, h, gx as int, gy as int, b, dx as int, rgba),
            decreases 10 - dx,
        {
            let ghost colstart = self.bytes();
            let mut dy: usize = 0;
            while dy < 17
                invariant
                    self.wf(),
                    self.same_shape(old(self)),
                    w == self.spec_width() as int,
                    h == self.spec_height() as int,
                    gx <= 2 * MAX_COORD,
                    gy <= 2 * MAX_COORD,
                    dx < 10,
                    0 <= dy <= 17,
                    self.bytes() == glyph_col_bytes(
                        colstart,
                        w,
                        h,
                        gx as int,
                        gy as int,
                        b,
                        dx as int,
                        dy as int,
                        rgba,
                    ),
                decreases 17 - dy,
            {
                let intensity = crate::fonts::glyph_intensity_exec(b, dx, dy);
                let c = glyph_rgba_exec(rgba, intensity);
                self.colour(gx + dx, gy + dy, c);
                dy = dy + 1;
            }
            dx = dx + 1;
        }
    }

    /// Paint a text string with its top-left corner at `topleft`: fixed
    /// 10x17 glyph cells advancing 10 pixels per character; a newline byte
    /// returns the cursor to the left edge and moves it 17 pixels down.
    pub fn text(&mut self, topleft: Point, text: &str, rgba: u32)
        requires
            old(self).wf(),
        ensures
            final(self).wf(),
            final(self).same_shape(old(self)),
            final(self).bytes() == text_bytes(
                old(self).bytes(),
                old(self).spec_width() as int,
                old(self).spec_height() as int,
                topleft,
                text.spec_bytes(),
                rgba,
            ),
    {
        self.text_raw(topleft, text.as_bytes(), rgba);
    }

    /// Paint a text string given as its bytes, as `text` does.
    fn text_raw(&mut self, topleft: Point, text: &[u8], rgba: u32)
        requires
            old(self).wf(),
        ensures
            final(self).wf(),
            final(self).same_shape(old(self)),
            final(self).bytes() == text_bytes(
                old(self).bytes(),
                old(self).spec_width() as int,
                old(self).spec_height() as int,
                topleft,
                text@,
                rgba,
            ),
    {
        let ghost w = self.width as int;
        let ghost h = self.height as int;
        let ghost orig = self.bytes();
        let bytes: &[u8] = text;
        let n = bytes.len();
        let x0: u128 = topleft.0 as u128;
        let mut cx: u128 = topleft.0 as u128;
        let mut cy: u128 = topleft.1 as u128;
        let mut i: usize = 0;
        proof {
            assert(bytes@.skip(0) =~= bytes@);
        }
        while i < n
            invariant
                self.wf(),
                self.same_shape(old(self)),
                orig == old(self).bytes(),
                w == self.spec_width() as int,
                h == self.spec_height() as int,
                bytes@ == text@,
                n == bytes@.len(),
                0 <= i <= n,
                x0 == topleft.0 as u128,
                cx as int <= topleft.0 + 10 * (i as int),
                topleft.0 <= cx as int,
                cy as int <= topleft.1 + 17 * (i as int),
                topleft.1 <= cy as int,
                text_bytes_at(
                    orig,
                    w,
                    h,
                    topleft.0 as int,
                    topleft.0 as int,
                    topleft.1 as int,
                    bytes@,
                    rgba,
                ) == text_bytes_at(
                    self.bytes(),
                    w,
                    h,
                    topleft.0 as int,
                    cx as int,
                    cy as int,
                    bytes@.skip(i as int),
                    rgba,
                ),
            decreases n - i,
        {
            let b = bytes[i];
            proof {
                assert(bytes@.skip(i as int)[0] == bytes@[i as int]);
                assert(bytes@.skip(i as int).skip(1) =~= bytes@.skip(i as int + 1));
            }
            if b == 10 {
                cx = x0;
                cy = cy + 17;
            } else {
                let code = if b > 127 {
                    32
                } else {
                    b
                };
                if cx < self.width as u128 && cy < self.height as u128 {
                    self.paint_glyph(cx as usize, cy as usize, code, rgba);
                } else {
                    proof {
                        lemma_glyph_noop(
                            self.bytes(),
                            w,
                            h,
                            cx as int,
                            cy as int,
                            code,
                            10,
                            rgba,
                        );
                    }
                }
                cx = cx + 10;
            }
            i = i + 1;
        }
        proof {
            assert(bytes@.skip(n as int) =~= Seq::<u8>::empty());
        }
    }

    /// Paint one column of a text outline box: the border pixels in the
    /// text colour, the interior in the raster's background colour. The
    /// ghost corner and glyph count tie the column to the box's colour
    /// rule.
    fn outline_col(
        &mut self,
        x: usize,
        ty: usize,
        edge: bool,
        rgba: u32,
        Ghost(tx): Ghost<int>,
        Ghost(count): Ghost<int>,
    )
        requires
            old(self).wf(),
            ty <= MAX_COORD,
            tx <= x as int <= tx + count * 10 + 1,
            edge <==> (x as int == tx || x as int == tx + count * 10 + 1),
        ensures
            final(self).wf(),
            final(self).same_shape(old(self)),
            final(self).bytes() == painted_select_bytes(
                old(self).bytes(),
                old(self).spec_width() as int,
                |px: int, py: int| px == x && ty <= py <= ty + 18,
                outline_csel(tx, ty as int, count, rgba, old(self).spec_background()),
            ),
    {
        let ghost w = self.width as int;
        let ghost h = self.height as int;
        let ghost orig = self.bytes();
        let ghost csel = outline_csel(tx, ty as int, count, rgba, self.spec_background());
        if self.width == 0 || self.height == 0 {
            proof {
                assert(painted_select_bytes(
                    orig,
                    w,
                    |px: int, py: int| px == x && ty <= py <= ty + 18,
                    csel,
                ) =~= orig);
            }
            return ;
        }
        let bgc = self.background;
        let mut dy: usize = 0;
        proof {
            lemma_paint_select_empty(orig, w, |px: int, py: int| px == x && ty <= py < ty, csel);
        }
        while dy < 19
            invariant
                self.wf(),
                self.same_shape(old(self)),
                orig == old(self).bytes(),
                w == self.spec_width() as int,
                h == self.spec_height() as int,
                0 < self.spec_width(),
                0 < self.spec_height(),
                bgc == old(self).spec_background(),
                csel == outline_csel(tx, ty as int, count, rgba, old(self).spec_background()),
                tx <= x as int <= tx + count * 10 + 1,
                edge <==> (x as int == tx || x as int == tx + count * 10 + 1),
                ty <= MAX_COORD,
                0 <= dy <= 19,
                self.bytes() == painted_select_bytes(
                    orig,
                    w,
                    |px: int, py: int| px == x && ty <= py < ty + dy,
                    csel,
                ),
            decreases 19 - dy,
        {
            let y = ty + dy;
            let c = if dy == 0 || dy == 18 || edge {
                rgba
            } else {
                bgc
            };
            proof {
                assert(c == csel(x as int, y as int));
            }
            self.colour(x, y, c);
            proof {
                lemma_paint_select_extend(
                    orig,
                    w,
                    h,
                    |px: int, py: int| px == x && ty <= py < ty + dy,
                    |px: int, py: int| px == x && ty <= py < ty + dy + 1,
                    csel,
                    x as int,
                    y as int,
                );
            }
            dy = dy + 1;
        }
        proof {
            lemma_paint_select_congruence(
                orig,
                w,
                |px: int, py: int| px == x && ty <= py < ty + 19,
                |px: int, py: int| px == x && ty <= py <= ty + 18,
                csel,
            );
        }
    }

    /// Paint a single line of text with a one-pixel outline box around it:
    /// the box border in the text colour, its interior cleared to the
    /// background colour, then the text inset one pixel from the corner.
    pub fn text_with_outline(&mut self, topleft: Point, text: &str, rgba: u32)
        requires
            old(self).wf(),
            topleft.0 <= MAX_COORD,
            topleft.1 <= MAX_COORD,
        ensures
            final(self).wf(),
            final(self).same_shape(old(self)),
            final(self).bytes() == text_bytes(
                outline_bytes(
                    old(self).bytes(),
                    old(self).spec_width() as int,
                    topleft.0 as int,
                    topleft.1 as int,
                    text.spec_bytes().len() as int,
                    rgba,
                    old(self).spec_background(),
                ),
                old(self).spec_width() as int,
                old(self).spec_height() as int,
                ((topleft.0 + 1) as usize, (topleft.1 + 1) as usize),
                text.spec_bytes(),
                rgba,
            ),
    {
        self.text_with_outline_raw(topleft, text.as_bytes(), rgba);
    }

    /// Paint an outlined single line of text given as its bytes, as
    /// `text_with_outline` does.
    fn text_with_outline_raw(&mut self, topleft: Point, text: &[u8], rgba: u32)
        requires
            old(self).wf(),
            topleft.0 <= MAX_COORD,
            topleft.1 <= MAX_COORD,
        ensures
            final(self).wf(),
            final(self).same_shape(old(self)),
            final(self).bytes() == text_bytes(
                outline_bytes(
                    old(self).bytes(),
                    old(self).spec_width() as int,
                    topleft.0 as int,
                    topleft.1 as int,
                    text@.len() as int,
                    rgba,
                    old(self).spec_background(),
                ),
                old(self).spec_width() as int,
                old(self).spec_height() as int,
                ((topleft.0 + 1) as usize, (topleft.1 + 1) as usize),
                text@,
                rgba,
            ),
    {
        let count = text.len();
        let ghost w = self.width as int;
        let ghost h = self.height as int;
        let ghost orig = self.bytes();
        let ghost csel = outline_csel(
            topleft.0 as int,
            topleft.1 as int,
            count as int,
            rgba,
            self.spec_background(),
        );
        let cols: u128 = (count as u128) * 10 + 2;
        let mut dx: u128 = 0;
        proof {
            lemma_paint_select_empty(
                orig,
                w,
                |px: int, py: int| topleft.0 <= px < topleft.0 && topleft.1 <= py <= topleft.1
                    + 18,
                csel,
            );
        }
        while dx < cols
            invariant
                self.wf(),
                self.same_shape(old(self)),
                orig == old(self).bytes(),
                w == self.spec_width() as int,
                h == self.spec_height() as int,
                csel == outline_csel(
                    topleft.0 as int,
                    topleft.1 as int,
                    count as int,
                    rgba,
                    old(self).spec_background(),
                ),
                count == text@.len(),
                topleft.0 <= MAX_COORD,
                topleft.1 <= MAX_COORD,
                cols == count as int * 10 + 2,
                0 <= dx <= cols,
                self.bytes() == painted_select_bytes(
                    orig,
                    w,
                    |px: int, py: int| topleft.0 <= px < topleft.0 + dx && topleft.1 <= py
                        <= topleft.1 + 18,
                    csel,
                ),
            decreases cols - dx,
        {
            let x128: u128 = topleft.0 as u128 + dx;
            if x128 < self.width as u128 {
                let edge = dx == 0 || dx + 1 == cols;
                self.outline_col(
                    x128 as usize,
                    topleft.1,
                    edge,
                    rgba,
                    Ghost(topleft.0 as int),
                    Ghost(count as int),
                );
                proof {
                    lemma_paint_select_compose(
                        orig,
                        w,
                        |px: int, py: int| topleft.0 <= px < topleft.0 + dx && topleft.1 <= py
                            <= topleft.1 + 18,
                        |px: int, py: int| px == topleft.0 + dx && topleft.1 <= py <= topleft.1
                            + 18,
                        |px: int, py: int| topleft.0 <= px < topleft.0 + dx + 1 && topleft.1
                            <= py <= topleft.1 + 18,
                        csel,
                    );
                }
            } else {
                proof {
                    lemma_paint_select_visible_congruence(
                        orig,
                        w,
                        h,
                        |px: int, py: int| topleft.0 <= px < topleft.0 + dx && topleft.1 <= py
                            <= topleft.1 + 18,
                        |px: int, py: int| topleft.0 <= px < topleft.0 + dx + 1 && topleft.1
                            <= py <= topleft.1 + 18,
                        csel,
                    );
                }
            }
            dx = dx + 1;
        }
        proof {
            lemma_paint_select_congruence(
                orig,
                w,
                |px: int, py: int| topleft.0 <= px < topleft.0 + (count as int * 10 + 2)
                    && topleft.1 <= py <= topleft.1 + 18,
                |px: int, py: int| topleft.0 <= px <= topleft.0 + count * 10 + 1 && topleft.1
                    <= py <= topleft.1 + 18,
                csel,
            );
        }
        self.text_raw((topleft.0 + 1, topleft.1 + 1), text, rgba);
    }

    /// Paint a single line of text over a solid backing rectangle sized to
    /// the text's bounding box.
    pub fn text_with_background(
        &mut self,
        topleft: Point,
        text: &str,
        rgba: u32,
        background_rgba: u32,
    )
        requires
            old(self).wf(),
            topleft.0 <= MAX_COORD,
            topleft.1 <= MAX_COORD,
        ensures
            final(self).wf(),
            final(self).same_shape(old(self)),
            final(self).bytes() == text_bytes(
                backing_bytes(
                    old(self).bytes(),
                    old(self).spec_width() as int,
                    topleft,
                    text.spec_bytes().len() as int,
                    background_rgba,
                ),
                old(self).spec_width() as int,
                old(self).spec_height() as int,
                topleft,
                text.spec_bytes(),
                rgba,
            ),
    {
        self.text_with_background_raw(topleft, text.as_bytes(), rgba, background_rgba);
    }

    /// Paint a backed single line of text given as its bytes, as
    /// `text_with_background` does.
    fn text_with_background_raw(
        &mut self,
        topleft: Point,
        text: &[u8],
        rgba: u32,
        background_rgba: u32,
    )
        requires
            old(self).wf(),
            topleft.0 <= MAX_COORD,
            topleft.1 <= MAX_COORD,
        ensures
            final(self).wf(),
            final(self).same_shape(old(self)),
            final(self).bytes() == text_bytes(
                backing_bytes(
                    old(self).bytes(),
                    old(self).spec_width() as int,
                    topleft,
                    text@.len() as int,
                    background_rgba,
                ),
                old(self).spec_width() as int,
                old(self).spec_height() as int,
                topleft,
                text@,
                rgba,
            ),
    {
        let count = text.len();
        let ghost w = self.width as int;
        let ghost h = self.height as int;
        if count > 0 {
            // clamp the right and bottom edges: everything beyond the
            // coordinate cap lies outside the raster anyway
            let x2_full: u128 = topleft.0 as u128 + (count as u128) * 10 - 1;
            let x2 = if x2_full > MAX_COORD as u128 {
                MAX_COORD
            } else {
                x2_full as usize
            };
            let y2 = if topleft.1 > MAX_COORD - 16 {
                MAX_COORD
            } else {
                topleft.1 + 16
            };
            self.rect(topleft.0, topleft.1, x2, y2, background_rgba);
            proof {
                lemma_paint_visible_congruence(
                    old(self).bytes(),
                    w,
                    h,
                    |px: int, py: int| vstd::math::min(topleft.0 as int, x2 as int) <= px
                        <= vstd::math::max(topleft.0 as int, x2 as int) && vstd::math::min(
                        topleft.1 as int,
                        y2 as int,
                    ) <= py <= vstd::math::max(topleft.1 as int, y2 as int),
                    |px: int, py: int| topleft.0 <= px < topleft.0 + count * 10 && topleft.1
                        <= py < topleft.1 + 17,
                    background_rgba,
                );
            }
        } else {
            proof {
                lemma_paint_empty(
                    self.bytes(),
                    w,
                    |px: int, py: int| topleft.0 <= px < topleft.0 + count * 10 && topleft.1
                        <= py < topleft.1 + 17,
                    background_rgba,
                );
            }
        }
        self.text_raw(topleft, text, rgba);
    }

    /// Fill the axis-aligned bounding box of the two corner points.
    pub fn rect_point(&mut self, p1: Point, p2: Point, rgba: u32)
        requires
            old(self).wf(),
            p1.0 <= MAX_COORD,
            p1.1 <= MAX_COORD,
            p2.0 <= MAX_COORD,
            p2.1 <= MAX_COORD,
        ensures
            final(self).wf(),
            final(self).same_shape(old(self)),
            final(self).bytes() == rect_bytes(
                old(self).bytes(),
                old(self).spec_width() as int,
                vstd::math::min(p1.0 as int, p2.0 as int),
                vstd::math::min(p1.1 as int, p2.1 as int),
                vstd::math::max(p1.0 as int, p2.0 as int),
                vstd::math::max(p1.1 as int, p2.1 as int),
                rgba,
            ),
    {
        self.rect(p1.0, p1.1, p2.0, p2.1, rgba);
    }
}

/// One blended channel, as `blend_channel` states.
fn blend_exec(a: u8, fg: u8, bg: u8) -> (r: u8)
    ensures
        r == blend_channel(a, fg, bg),
{
    if a >= 245 {
        fg
    } else if a <= 10 {
        bg
    } else {
        proof {
            assert(a * fg <= 255 * 255 && (255 - a) * bg <= 255 * 255) by (nonlinear_arith)
                requires
                    a <= 255,
                    fg <= 255,
                    bg <= 255,
            ;
            assert((a * fg + (255 - a) * bg + 127) as int / 255 <= 255) by (nonlinear_arith)
                requires
                    a <= 255,
                    fg <= 255,
                    bg <= 255,
            ;
        }
        ((a as u32 * fg as u32 + (255 - a as u32) * bg as u32 + 127) / 255) as u8
    }
}

/// Channel `j` (0 red, 1 green, 2 blue) of a packed RGBA colour.
pub open spec fn chan_of(rgba: u32, j: int) -> u8 {
    if j == 0 {
        spec_red(rgba)
    } else if j == 1 {
        spec_green(rgba)
    } else {
        spec_blue(rgba)
    }
}

/// The buffer after blending `rgba` into every pixel of `region` once:
/// byte `k` belongs to pixel `((k/3) % w, (k/3) / w)` and is blended exactly
/// when that pixel lies in the region.
pub open spec fn painted_region_bytes(
    data: Seq<u8>,
    w: int,
    region: spec_fn(int, int) -> bool,
    rgba: u32,
) -> Seq<u8> {
    Seq::new(
        data.len(),
        |k: int|
            if region((k / 3) % w, (k / 3) / w) {
                blend_channel(spec_alpha(rgba), chan_of(rgba, k % 3), data[k])
            } else {
                data[k]
            },
    )
}

/// The buffer after filling the axis-aligned box `[x1, x2] x [y1, y2]`
/// (already normalised, ends inclusive) with `rgba`, one blend per pixel.
pub open spec fn rect_bytes(
    data: Seq<u8>,
    w: int,
    x1: int,
    y1: int,
    x2: int,
    y2: int,
    rgba: u32,
) -> Seq<u8> {
    painted_region_bytes(data, w, |px: int, py: int| x1 <= px <= x2 && y1 <= py <= y2, rgba)
}

/// Byte `k` of a well-formed buffer decodes to a unique pixel and channel.
proof fn lemma_decode(w: int, h: int, k: int)
    requires
        0 < w,
        0 < h,
        0 <= k < w * h * 3,
    ensures
        0 <= k % 3 < 3,
        0 <= (k / 3) % w < w,
        0 <= (k / 3) / w < h,
        k == pixel_base(w, (k / 3) % w, (k / 3) / w) + k % 3,
{
    vstd::arithmetic::div_mod::lemma_fundamental_div_mod(k, 3);
    vstd::arithmetic::div_mod::lemma_mod_bound(k, 3);
    vstd::arithmetic::div_mod::lemma_div_pos_is_pos(k, 3);
    let p = k / 3;
    assert(p < w * h) by (nonlinear_arith)
        requires
            k < w * h * 3,
            k == 3 * (k / 3) + k % 3,
            0 <= k % 3,
            p == k / 3,
    ;
    vstd::arithmetic::div_mod::lemma_fundamental_div_mod(p, w);
    vstd::arithmetic::div_mod::lemma_mod_bound(p, w);
    vstd::arithmetic::div_mod::lemma_div_pos_is_pos(p, w);
    assert(p / w < h) by (nonlinear_arith)
        requires
            p < w * h,
            p == w * (p / w) + p % w,
            0 <= p % w < w,
    ;
    assert(k == ((p % w) + (p / w) * w) * 3 + k % 3) by (nonlinear_arith)
        requires
            k == 3 * p + k % 3,
            p == w * (p / w) + p % w,
    ;
}

/// Pixel `(x, y)`'s three bytes decode back to `(x, y)`.
proof fn lemma_encode(w: int, h: int, x: int, y: int, j: int)
    requires
        0 < w,
        0 <= x < w,
        0 <= y < h,
        0 <= j < 3,
    ensures
        (pixel_base(w, x, y) + j) / 3 == x + y * w,
        (pixel_base(w, x, y) + j) % 3 == j,
        ((pixel_base(w, x, y) + j) / 3) % w == x,
        ((pixel_base(w, x, y) + j) / 3) / w == y,
{
    let k = pixel_base(w, x, y) + j;
    vstd::arithmetic::div_mod::lemma_fundamental_div_mod_converse(k, 3, x + y * w, j);
    vstd::arithmetic::div_mod::lemma_fundamental_div_mod_converse(x + y * w, w, y, x);
}

/// Blending one more pixel extends the painted region by that pixel:
/// painting region `r1` and then pixel `(x, y)` equals painting region `r2`
/// in one pass, provided `r2` is exactly `r1` plus `(x, y)`.
proof fn lemma_paint_extend(
    data: Seq<u8>,
    w: int,
    h: int,
    r1: spec_fn(int, int) -> bool,
    r2: spec_fn(int, int) -> bool,
    x: int,
    y: int,
    rgba: u32,
)
    requires
        0 < w,
        0 < h,
        data.len() == w * h * 3,
        !r1(x, y),
        forall|px: int, py: int| #[trigger] r2(px, py) <==> r1(px, py) || (px == x && py == y),
    ensures
        colour_bytes(painted_region_bytes(data, w, r1, rgba), w, h, x, y, rgba)
            == painted_region_bytes(data, w, r2, rgba),
{
    let lhs = colour_bytes(painted_region_bytes(data, w, r1, rgba), w, h, x, y, rgba);
    let rhs = painted_region_bytes(data, w, r2, rgba);
    let inner = painted_region_bytes(data, w, r1, rgba);
    assert forall|k: int| 0 <= k < data.len() implies lhs[k] == rhs[k] by {
        lemma_decode(w, h, k);
        let px = (k / 3) % w;
        let py = (k / 3) / w;
        if 0 <= x < w && 0 <= y < h {
            lemma_encode(w, h, x, y, 0);
            lemma_encode(w, h, x, y, 1);
            lemma_encode(w, h, x, y, 2);
            assert((x + y * w) * 3 + 2 < w * h * 3) by (nonlinear_arith)
                requires
                    0 <= x < w,
                    0 <= y < h,
            ;
            let base = pixel_base(w, x, y);
            if px == x && py == y {
                assert(base <= k <= base + 2);
                assert(inner[k] == data[k]);
                assert(rhs[k] == blend_channel(spec_alpha(rgba), chan_of(rgba, k % 3), data[k]));
                if k == base {
                    assert(lhs[k] == blend_channel(spec_alpha(rgba), spec_red(rgba), inner[k]));
                } else if k == base + 1 {
                    assert(lhs[k] == blend_channel(spec_alpha(rgba), spec_green(rgba), inner[k]));
                } else {
                    assert(lhs[k] == blend_channel(spec_alpha(rgba), spec_blue(rgba), inner[k]));
                }
            } else {
                assert(k != base && k != base + 1 && k != base + 2);
                assert(lhs[k] == inner[k]);
                assert(rhs[k] == inner[k]);
            }
        } else {
            assert(lhs[k] == inner[k]);
            assert(rhs[k] == inner[k]);
        }
    }
    assert(inner.len() == data.len());
    if 0 <= x < w && 0 <= y < h {
        assert(0 <= (x + y * w) * 3 && (x + y * w) * 3 + 2 < w * h * 3) by (nonlinear_arith)
            requires
                0 <= x < w,
                0 <= y < h,
        ;
        assert(lhs == inner.update(
            pixel_base(w, x, y),
            blend_channel(spec_alpha(rgba), spec_red(rgba), inner[pixel_base(w, x, y)]),
        ).update(
            pixel_base(w, x, y) + 1,
            blend_channel(spec_alpha(rgba), spec_green(rgba), inner[pixel_base(w, x, y) + 1]),
        ).update(
            pixel_base(w, x, y) + 2,
            blend_channel(spec_alpha(rgba), spec_blue(rgba), inner[pixel_base(w, x, y) + 2]),
        ));
    } else {
        assert(lhs == inner);
    }
    assert(lhs.len() == data.len());
    assert(rhs.len() == data.len());
    assert forall|k: int| 0 <= k < lhs.len() implies lhs[k] == rhs[k] by {
        assert(0 <= k < data.len());
    }
    assert(lhs =~= rhs);
}

/// Painting an empty region changes nothing.
proof fn lemma_paint_empty(data: Seq<u8>, w: int, r: spec_fn(int, int) -> bool, rgba: u32)
    requires
        forall|px: int, py: int| !#[trigger] r(px, py),
    ensures
        painted_region_bytes(data, w, r, rgba) == data,
{
    assert(painted_region_bytes(data, w, r, rgba) =~= data);
}

/// Painting two disjoint regions one after the other equals painting their
/// union in one pass.
proof fn lemma_paint_compose(
    data: Seq<u8>,
    w: int,
    r1: spec_fn(int, int) -> bool,
    r2: spec_fn(int, int) -> bool,
    r3: spec_fn(int, int) -> bool,
    rgba: u32,
)
    requires
        forall|px: int, py: int| !(#[trigger] r1(px, py) && #[trigger] r2(px, py)),
        forall|px: int, py: int| #[trigger] r3(px, py) <==> r1(px, py) || r2(px, py),
    ensures
        painted_region_bytes(painted_region_bytes(data, w, r1, rgba), w, r2, rgba)
            == painted_region_bytes(data, w, r3, rgba),
{
    let inner = painted_region_bytes(data, w, r1, rgba);
    let lhs = painted_region_bytes(inner, w, r2, rgba);
    let rhs = painted_region_bytes(data, w, r3, rgba);
    assert forall|k: int| 0 <= k < data.len() implies lhs[k] == rhs[k] by {
        let px = (k / 3) % w;
        let py = (k / 3) / w;
        assert(!(r1(px, py) && r2(px, py)));
        assert(r3(px, py) <==> r1(px, py) || r2(px, py));
    }
    assert(lhs =~= rhs);
}

/// Two descriptions of the same region paint the same bytes.
proof fn lemma_paint_congruence(
    data: Seq<u8>,
    w: int,
    r1: spec_fn(int, int) -> bool,
    r2: spec_fn(int, int) -> bool,
    rgba: u32,
)
    requires
        forall|px: int, py: int| #[trigger] r1(px, py) <==> #[trigger] r2(px, py),
    ensures
        painted_region_bytes(data, w, r1, rgba) == painted_region_bytes(data, w, r2, rgba),
{
    assert(painted_region_bytes(data, w, r1, rgba) =~= painted_region_bytes(data, w, r2, rgba));
}

/// The three channel bytes of pixel `(x, y)` lie inside a well-formed buffer.
pub proof fn lemma_pixel_index(w: int, h: int, x: int, y: int)
    requires
        0 <= x < w <= MAX_DIM,
        0 <= y < h <= MAX_DIM,
    ensures
        0 <= (x + y * w) * 3 + 2 < w * h * 3,
        x + y * w < w * h,
        w * h <= MAX_DIM * MAX_DIM,
{
    assert(w * h <= MAX_DIM * MAX_DIM) by (nonlinear_arith)
        requires
            0 < w <= MAX_DIM,
            0 < h <= MAX_DIM,
    ;
    assert(x + y * w <= (w - 1) + (h - 1) * w) by (nonlinear_arith)
        requires
            x <= w - 1,
            0 <= y <= h - 1,
            0 < w,
    ;
    assert((w - 1) + (h - 1) * w < w * h) by (nonlinear_arith)
        requires
            0 < w && 0 < h,
    ;
    assert((x + y * w) * 3 + 2 < w * h * 3) by (nonlinear_arith)
        requires
            x + y * w < w * h,
            0 <= x + y * w,
    ;
}

/// The colour one glyph pixel paints with, as `glyph_rgba` states.
fn glyph_rgba_exec(rgba: u32, intensity: u8) -> (r: u32)
    ensures
        r == glyph_rgba(rgba, intensity),
{
    proof {
        vstd::arithmetic::div_mod::lemma_div_is_ordered(
            rgba as int,
            u32::MAX as int,
            0x100,
        );
        assert((rgba as int % 0x100) * (intensity as int) <= 255 * 255) by (nonlinear_arith)
            requires
                0 <= rgba as int % 0x100 < 0x100,
                intensity <= 255,
        ;
    }
    (rgba / 0x100) * 0x100 + ((rgba % 0x100) * (intensity as u32)) / 255
}

/// Fill `buffer` with `area` pixels of the red, green and blue bytes of
/// `rgba`, pushed in row-major order.
pub fn colour_buffer(buffer: &mut Vec<u8>, area: usize, rgba: u32)
    requires
        old(buffer)@.len() + area * 3 <= usize::MAX,
    ensures
        final(buffer)@ == old(buffer)@ + fill_bytes(area as int, rgba),
{
    let ghost orig = buffer@;
    let red = ((rgba / 0x1000000) % 0x100) as u8;
    let green = ((rgba / 0x10000) % 0x100) as u8;
    let blue = ((rgba / 0x100) % 0x100) as u8;
    let total = area * 3;
    let mut k: usize = 0;
    while k < total
        invariant
            k <= total,
            total == area * 3,
            orig == old(buffer)@,
            buffer@.len() == orig.len() + k,
            red == spec_red(rgba),
            green == spec_green(rgba),
            blue == spec_blue(rgba),
            forall|j: int| 0 <= j < orig.len() ==> buffer@[j] == #[trigger] orig[j],
            forall|j: int|
                0 <= j < k ==> buffer@[orig.len() + j] == #[trigger] fill_bytes(
                    area as int,
                    rgba,
                )[j],
        decreases total - k,
    {
        let m = k % 3;
        if m == 0 {
            buffer.push(red);
        } else if m == 1 {
            buffer.push(green);
        } else {
            buffer.push(blue);
        }
        k = k + 1;
    }
    proof {
        assert(buffer@ =~= orig + fill_bytes(area as int, rgba));
    }
}

/// What a painted caption shows: a number, a duration, or a fixed text.
#[derive(Clone, Copy, Debug)]
pub enum Label {
    /// The decimal digits of an unsigned amount.
    Unsigned(u64),
    /// The decimal digits of a signed value.
    Signed(i64),
    /// The compact text of an elapsed duration.
    Duration(u64),
    /// A fixed caption.
    Lit(&'static str),
}

/// The characters a label shows.
pub open spec fn label_chars(l: Label) -> Seq<char> {
    match l {
        Label::Unsigned(n) => crate::utils::spec_decimal(n as int),
        Label::Signed(n) => crate::utils::spec_i64_decimal(n as int),
        Label::Duration(e) => crate::utils::spec_duration_string(e as int),
        Label::Lit(s) => s@,
    }
}

/// The byte encoding of a label's characters.
pub open spec fn label_bytes(l: Label) -> Seq<u8> {
    vstd::utf8::encode_utf8(label_chars(l))
}

/// The label's value is renderable.
pub open spec fn label_ok(l: Label) -> bool {
    match l {
        Label::Signed(n) => n > i64::MIN,
        _ => true,
    }
}

/// The text of a label, as `label_chars` states.
pub fn label_string(l: &Label) -> (r: String)
    requires
        label_ok(*l),
    ensures
        r@ == label_chars(*l),
{
    match l {
        Label::Unsigned(n) => crate::utils::u64_to_string(*n),
        Label::Signed(n) => crate::utils::i64_to_string(*n),
        Label::Duration(e) => crate::utils::duration_string(*e),
        Label::Lit(s) => String::from_str(s),
    }
}

/// One step of a display list: what the overlays paint, as data.
#[derive(Clone, Copy, Debug)]
pub enum PaintOp {
    /// Draw a line between two points.
    Line { a: Point, b: Point, rgba: u32 },
    /// Fill the bounding box of two corner points.
    Rect { a: Point, b: Point, rgba: u32 },
    /// Paint a label.
    Text { at: Point, label: Label, rgba: u32 },
    /// Paint a label with a one-pixel outline box.
    TextOutline { at: Point, label: Label, rgba: u32 },
    /// Paint a label over a solid backing rectangle.
    TextBackground { at: Point, label: Label, rgba: u32, bg: u32 },
}

/// The step's coordinates and label stay inside the supported window.
pub open spec fn op_ok(op: PaintOp) -> bool {
    match op {
        PaintOp::Line { a, b, rgba } => a.0 <= MAX_COORD && a.1 <= MAX_COORD && b.0 <= MAX_COORD
            && b.1 <= MAX_COORD,
        PaintOp::Rect { a, b, rgba } => a.0 <= MAX_COORD && a.1 <= MAX_COORD && b.0 <= MAX_COORD
            && b.1 <= MAX_COORD,
        PaintOp::Text { at, label, rgba } => label_ok(label),
        PaintOp::TextOutline { at, label, rgba } => at.0 <= MAX_COORD && at.1 <= MAX_COORD
            && label_ok(label),
        PaintOp::TextBackground { at, label, rgba, bg } => at.0 <= MAX_COORD && at.1 <= MAX_COORD
            && label_ok(label),
    }
}

/// The buffer after one painting step; `rbg` is the raster's background
/// colour, which outline boxes clear their interior to.
pub open spec fn op_bytes(data: Seq<u8>, w: int, h: int, rbg: u32, op: PaintOp) -> Seq<u8> {
    match op {
        PaintOp::Line { a, b, rgba } => line_bytes(data, w, h, a, b, rgba),
        PaintOp::Rect { a, b, rgba } => rect_bytes(
            data,
            w,
            vstd::math::min(a.0 as int, b.0 as int),
            vstd::math::min(a.1 as int, b.1 as int),
            vstd::math::max(a.0 as int, b.0 as int),
            vstd::math::max(a.1 as int, b.1 as int),
            rgba,
        ),
        PaintOp::Text { at, label, rgba } => text_bytes(data, w, h, at, label_bytes(label), rgba),
        PaintOp::TextOutline { at, label, rgba } => text_bytes(
            outline_bytes(
                data,
                w,
                at.0 as int,
                at.1 as int,
                label_bytes(label).len() as int,
                rgba,
                rbg,
            ),
            w,
            h,
            ((at.0 + 1) as usize, (at.1 + 1) as usize),
            label_bytes(label),
            rgba,
        ),
        PaintOp::TextBackground { at, label, rgba, bg } => text_bytes(
            backing_bytes(data, w, at, label_bytes(label).len() as int, bg),
            w,
            h,
            at,
            label_bytes(label),
            rgba,
        ),
    }
}

/// The buffer after a whole display list, applied in order.
pub open spec fn ops_bytes(data: Seq<u8>, w: int, h: int, rbg: u32, ops: Seq<PaintOp>) -> Seq<
    u8,
>
    decreases ops.len(),
{
    if ops.len() == 0 {
        data
    } else {
        ops_bytes(op_bytes(data, w, h, rbg, ops[0]), w, h, rbg, ops.skip(1))
    }
}

/// Painting a display list and then one more step is painting the extended
/// list.
pub proof fn lemma_ops_bytes_push(
    data: Seq<u8>,
    w: int,
    h: int,
    rbg: u32,
    ops: Seq<PaintOp>,
    op: PaintOp,
)
    ensures
        ops_bytes(data, w, h, rbg, ops.push(op)) == op_bytes(
            ops_bytes(data, w, h, rbg, ops),
            w,
            h,
            rbg,
            op,
        ),
    decreases ops.len(),
{
    if ops.len() == 0 {
        assert(ops.push(op)[0] == op);
        assert(ops.push(op).skip(1) =~= Seq::<PaintOp>::empty());
        let once = op_bytes(data, w, h, rbg, op);
        assert(ops_bytes(data, w, h, rbg, ops.push(op)) == ops_bytes(
            once,
            w,
            h,
            rbg,
            Seq::<PaintOp>::empty(),
        ));
        assert(ops_bytes(once, w, h, rbg, Seq::<PaintOp>::empty()) == once);
        assert(ops_bytes(data, w, h, rbg, ops) == data);
    } else {
        assert(ops.push(op)[0] == ops[0]);
        assert(ops.push(op).skip(1) =~= ops.skip(1).push(op));
        let first = op_bytes(data, w, h, rbg, ops[0]);
        lemma_ops_bytes_push(first, w, h, rbg, ops.skip(1), op);
        assert(ops_bytes(data, w, h, rbg, ops.push(op)) == ops_bytes(
            first,
            w,
            h,
            rbg,
            ops.skip(1).push(op),
        ));
        assert(ops_bytes(data, w, h, rbg, ops) == ops_bytes(first, w, h, rbg, ops.skip(1)));
    }
}

impl Raster {
    /// Apply a display list: each step blended in order.
    pub fn paint_ops(&mut self, ops: &Vec<PaintOp>)
        requires
            old(self).wf(),
            forall|i: int| 0 <= i < ops@.len() ==> op_ok(#[trigger] ops@[i]),
        ensures
            final(self).wf(),
            final(self).same_shape(old(self)),
            final(self).bytes() == ops_bytes(
                old(self).bytes(),
                old(self).spec_width() as int,
                old(self).spec_height() as int,
                old(self).spec_background(),
                ops@,
            ),
    {
        let ghost w = self.width as int;
        let ghost h = self.height as int;
        let ghost rbg = self.background;
        let ghost orig = self.bytes();
        let n = ops.len();
        let mut i: usize = 0;
        proof {
            assert(ops@.take(0) =~= Seq::<PaintOp>::empty());
        }
        while i < n
            invariant
                self.wf(),
                self.same_shape(old(self)),
                orig == old(self).bytes(),
                w == self.spec_width() as int,
                h == self.spec_height() as int,
                rbg == self.spec_background(),
                n == ops@.len(),
                0 <= i <= n,
                forall|j: int| 0 <= j < ops@.len() ==> op_ok(#[trigger] ops@[j]),
                self.bytes() == ops_bytes(orig, w, h, rbg, ops@.take(i as int)),
            decreases n - i,
        {
            let op = ops[i];
            proof {
                assert(op_ok(ops@[i as int]));
                assert(ops@.take(i as int + 1) =~= ops@.take(i as int).push(op));
                lemma_ops_bytes_push(orig, w, h, rbg, ops@.take(i as int), op);
            }
            match op {
                PaintOp::Line { a, b, rgba } => {
                    self.line(a, b, rgba);
                },
                PaintOp::Rect { a, b, rgba } => {
                    self.rect_point(a, b, rgba);
                },
                PaintOp::Text { at, label, rgba } => {
                    let caption = label_string(&label);
                    let text = caption.as_str();
                    self.text(at, text, rgba);
                },
                PaintOp::TextOutline { at, label, rgba } => {
                    let caption = label_string(&label);
                    let text = caption.as_str();
                    self.text_with_outline(at, text, rgba);
                },
                PaintOp::TextBackground { at, label, rgba, bg } => {
                    let caption = label_string(&label);
                    let text = caption.as_str();
                    self.text_with_background(at, text, rgba, bg);
                },
            }
            i = i + 1;
        }
        proof {
            assert(ops@.take(n as int) =~= ops@);
        }
    }
}

} // verus!
