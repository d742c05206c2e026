use vstd::prelude::*;

verus! {

/// A tile of an image too large for one texture: the pixels from
/// `(start_x, start_y)` up to, not including, `(end_x, end_y)`.
#[derive(Debug, Clone, Copy, PartialEq, Eq, Structural)]
pub struct TileRect {
    pub start_x: u32,
    pub start_y: u32,
    pub end_x: u32,
    pub end_y: u32,
}

/// The smaller of two integers.
pub open spec fn smaller(a: int, b: int) -> int {
    if a < b {
        a
    } else {
        b
    }
}

/// The tile in column `x` and row `y` of an image of `width` by `height`
/// pixels cut into squares of side `limit`.
pub open spec fn tile_at(x: int, y: int, width: int, height: int, limit: int) -> TileRect {
    TileRect {
        start_x: (x * limit) as u32,
        start_y: (y * limit) as u32,
        end_x: smaller((x + 1) * limit, width) as u32,
        end_y: smaller((y + 1) * limit, height) as u32,
    }
}

/// The columns of tiles that hold pixels.
pub open spec fn columns(width: int, limit: int) -> int {
    if width % limit == 0 {
        width / limit
    } else {
        width / limit + 1
    }
}

/// The rows of tiles of each column: one more than the whole squares that fit,
/// so that the last row is empty when the height is a multiple of `limit`.
pub open spec fn rows(height: int, limit: int) -> int {
    height / limit + 1
}

/// The first `n` tiles, column by column and, in a column, row by row.
pub open spec fn layout_upto(n: int, width: int, height: int, limit: int) -> Seq<TileRect> {
    Seq::new(
        n as nat,
        |k: int| tile_at(k / rows(height, limit), k % rows(height, limit), width, height, limit),
    )
}

/// All the tiles of an image.
pub open spec fn layout(width: int, height: int, limit: int) -> Seq<TileRect> {
    layout_upto(columns(width, limit) * rows(height, limit), width, height, limit)
}

/// The tile holds the pixel `(px, py)`.
pub open spec fn covers(t: TileRect, px: int, py: int) -> bool {
    t.start_x <= px < t.end_x && t.start_y <= py < t.end_y
}

proof fn lemma_column_start(x: int, width: int, limit: int)
    requires
        0 < limit,
        0 <= width,
        0 <= x <= width / limit,
    ensures
        x * limit <= width,
        x < columns(width, limit) ==> x * limit < width,
        x >= columns(width, limit) ==> x * limit == width,
{
    vstd::arithmetic::div_mod::lemma_fundamental_div_mod(width, limit);
    vstd::arithmetic::div_mod::lemma_mod_pos_bound(width, limit);
    let q = width / limit;
    let r = width % limit;
    assert(x * limit <= q * limit) by (nonlinear_arith)
        requires
            x <= q,
            0 < limit,
    ;
    assert(limit * q == q * limit) by (nonlinear_arith);
    if x < columns(width, limit) && r == 0 {
        assert(x * limit <= (q - 1) * limit) by (nonlinear_arith)
            requires
                x <= q - 1,
                0 < limit,
        ;
        assert((q - 1) * limit == q * limit - limit) by (nonlinear_arith);
    }
}

/// The position in [`layout`] of the tile that holds the pixel `(px, py)`.
pub open spec fn tile_index(px: int, py: int, height: int, limit: int) -> int {
    (px / limit) * rows(height, limit) + py / limit
}

proof fn lemma_index_parts(k: int, x: int, y: int, rws: int)
    requires
        0 < rws,
        0 <= y < rws,
        k == x * rws + y,
    ensures
        k / rws == x,
        k % rws == y,
{
    vstd::arithmetic::div_mod::lemma_fundamental_div_mod_converse(k, rws, x, y);
}

/// Every pixel of the image lies in exactly one tile: the tile at
/// [`tile_index`] holds it, and no other tile does.
pub proof fn tiles_cover_each_pixel_once(width: int, height: int, limit: int, px: int, py: int)
    requires
        0 < limit,
        0 <= px < width,
        0 <= py < height,
        width + limit <= u32::MAX,
        height + limit <= u32::MAX,
    ensures
        0 <= tile_index(px, py, height, limit) < layout(width, height, limit).len(),
        covers(layout(width, height, limit)[tile_index(px, py, height, limit)], px, py),
        forall|j: int|
            0 <= j < layout(width, height, limit).len() && covers(
                #[trigger] layout(width, height, limit)[j],
                px,
                py,
            ) ==> j == tile_index(px, py, height, limit),
{
    let rws = rows(height, limit);
    let cols = columns(width, limit);
    let x0 = px / limit;
    let y0 = py / limit;
    let k0 = tile_index(px, py, height, limit);
    vstd::arithmetic::div_mod::lemma_fundamental_div_mod(px, limit);
    vstd::arithmetic::div_mod::lemma_mod_pos_bound(px, limit);
    vstd::arithmetic::div_mod::lemma_fundamental_div_mod(py, limit);
    vstd::arithmetic::div_mod::lemma_mod_pos_bound(py, limit);
    vstd::arithmetic::div_mod::lemma_div_pos_is_pos(px, limit);
    vstd::arithmetic::div_mod::lemma_div_pos_is_pos(py, limit);
    vstd::arithmetic::div_mod::lemma_div_is_ordered(px, width, limit);
    vstd::arithmetic::div_mod::lemma_div_is_ordered(py, height, limit);
    assert(limit * x0 == x0 * limit) by (nonlinear_arith);
    assert(limit * y0 == y0 * limit) by (nonlinear_arith);
    // the tile of the pixel is within the columns and rows
    lemma_column_start(x0, width, limit);
    assert(x0 < cols) by {
        if x0 >= cols {
            assert(x0 * limit == width);
        }
    }
    assert(y0 < rws);
    assert(0 <= k0 < cols * rws) by (nonlinear_arith)
        requires
            0 <= x0 < cols,
            0 <= y0 < rws,
            k0 == x0 * rws + y0,
    ;
    lemma_index_parts(k0, x0, y0, rws);
    // the pixel lies in it
    assert((x0 + 1) * limit == x0 * limit + limit) by (nonlinear_arith);
    assert((y0 + 1) * limit == y0 * limit + limit) by (nonlinear_arith);
    lemma_column_start(y0, height, limit);
    // and in no other
    assert forall|j: int|
        0 <= j < layout(width, height, limit).len() && covers(
            #[trigger] layout(width, height, limit)[j],
            px,
            py,
        ) implies j == k0 by {
        let x = j / rws;
        let y = j % rws;
        vstd::arithmetic::div_mod::lemma_fundamental_div_mod(j, rws);
        vstd::arithmetic::div_mod::lemma_mod_pos_bound(j, rws);
        vstd::arithmetic::div_mod::lemma_div_pos_is_pos(j, rws);
        assert(j < cols * rws);
        assert(x < cols) by {
            vstd::arithmetic::div_mod::lemma_div_by_multiple_is_strongly_ordered(j, cols * rws, cols, rws);
            assert(cols * rws / rws == cols) by {
                vstd::arithmetic::div_mod::lemma_div_by_multiple(cols, rws);
            }
        }
        lemma_column_start(x, width, limit);
        lemma_column_start(y, height, limit);
        assert((x + 1) * limit == x * limit + limit) by (nonlinear_arith);
        assert((y + 1) * limit == y * limit + limit) by (nonlinear_arith);
        let t = layout(width, height, limit)[j];
        assert(t == tile_at(x, y, width, height, limit));
        assert(x * limit <= px < x * limit + limit);
        assert(y * limit <= py < y * limit + limit);
        vstd::arithmetic::div_mod::lemma_fundamental_div_mod_converse(px, limit, x, px - x * limit);
        vstd::arithmetic::div_mod::lemma_fundamental_div_mod_converse(py, limit, y, py - y * limit);
        assert(rws * x == x * rws) by (nonlinear_arith);
    }
}

/// Cuts an image of `width` by `height` pixels into tiles of at most `limit`
/// pixels a side, column by column and, in a column, row by row. Columns
/// without pixels are left out; a row without pixels is kept.
pub fn tile_layout(width: u32, height: u32, limit: u32) -> (r: Vec<TileRect>)
    requires
        0 < limit,
        width + limit <= u32::MAX,
        height + limit <= u32::MAX,
    ensures
        r@ == layout(width as int, height as int, limit as int),
{
    let tile_width = width / limit + 1;
    let tile_height = height / limit + 1;
    let ghost cols = columns(width as int, limit as int);
    let ghost rws = rows(height as int, limit as int);
    let mut out: Vec<TileRect> = Vec::new();
    let mut x: u32 = 0;
    proof {
        vstd::arithmetic::div_mod::lemma_fundamental_div_mod(width as int, limit as int);
        vstd::arithmetic::div_mod::lemma_mod_pos_bound(width as int, limit as int);
        assert(smaller(0, cols) == 0);
        assert(0 * rws == 0);
        assert(out@ =~= layout_upto(0, width as int, height as int, limit as int));
    }
    while x < tile_width
        invariant
            0 < limit,
            width + limit <= u32::MAX,
            height + limit <= u32::MAX,
            tile_width == width / limit + 1,
            tile_height == height / limit + 1,
            cols == columns(width as int, limit as int),
            rws == rows(height as int, limit as int),
            rws == tile_height,
            cols <= tile_width,
            x <= tile_width,
            x > cols ==> x == tile_width,
            out@ == layout_upto(
                smaller(x as int, cols) * rws,
                width as int,
                height as int,
                limit as int,
            ),
        decreases tile_width - x,
    {
        let mut y: u32 = 0;
        proof {
            lemma_column_start(x as int, width as int, limit as int);
        }
        while y < tile_height
            invariant
                0 < limit,
                width + limit <= u32::MAX,
                height + limit <= u32::MAX,
                tile_width == width / limit + 1,
                tile_height == height / limit + 1,
                cols == columns(width as int, limit as int),
                rws == rows(height as int, limit as int),
                rws == tile_height,
                x < tile_width,
                cols <= tile_width,
                y <= tile_height,
                x * limit <= width,
                x < cols ==> x * limit < width,
                x >= cols ==> x * limit == width && x == cols,
                out@ == layout_upto(
                    if x < cols {
                        x * rws + y
                    } else {
                        cols * rws
                    },
                    width as int,
                    height as int,
                    limit as int,
                ),
            decreases tile_height - y,
        {
            proof {
                lemma_column_start(y as int, height as int, limit as int);
                assert((x + 1) * limit == x * limit + limit) by (nonlinear_arith);
                assert((y + 1) * limit == y * limit + limit) by (nonlinear_arith);
            }
            let start_x = x * limit;
            let start_y = y * limit;
            let next_x = (x + 1) * limit;
            let next_y = (y + 1) * limit;
            let end_x = if next_x < width {
                next_x
            } else {
                width
            };
            let end_y = if next_y < height {
                next_y
            } else {
                height
            };
            if end_x - start_x != 0 {
                let tile = TileRect { start_x, start_y, end_x, end_y };
                proof {
                    let k = x * rws + y;
                    lemma_index_parts(k, x as int, y as int, rws);
                    assert(tile == tile_at(x as int, y as int, width as int, height as int, limit as int));
                    assert(out@.push(tile) =~= layout_upto(
                        k + 1,
                        width as int,
                        height as int,
                        limit as int,
                    ));
                }
                out.push(tile);
            }
            y = y + 1;
        }
        proof {
            if x < cols {
                assert(x * rws + rws == (x + 1) * rws) by (nonlinear_arith);
            }
        }
        x = x + 1;
    }
    proof {
        assert(smaller(x as int, cols) == cols);
    }
    out
}

/// An image small enough for one texture: one tile in each direction.
pub fn is_single_tile(width: u32, height: u32, limit: u32) -> (r: bool)
    requires
        0 < limit,
    ensures
        r == (width / limit == 0 && height / limit == 0),
{
    width / limit == 0 && height / limit == 0
}

/// The whole part of the base-two logarithm of `n`.
pub open spec fn floor_log2(n: int) -> int
    decreases n,
{
    if n < 2 {
        0
    } else {
        1 + floor_log2(n / 2)
    }
}

proof fn lemma_floor_log2_below(n: int)
    requires
        n >= 1,
    ensures
        0 <= floor_log2(n) < n,
    decreases n,
{
    if n >= 2 {
        lemma_floor_log2_below(n / 2);
    }
}

/// The number of mipmap levels of a texture of `width` by `height` pixels:
/// one for the full size and one per halving of the longer side down to a
/// single pixel, ten at most.
pub fn mip_level_count(width: u32, height: u32) -> (r: u32)
    requires
        width > 0 || height > 0,
    ensures
        r == smaller(
            floor_log2(
                if width > height {
                    width as int
                } else {
                    height as int
                },
            ) + 1,
            10,
        ),
{
    let longest = if width > height {
        width
    } else {
        height
    };
    let mut n = longest;
    let mut halvings: u32 = 0;
    proof {
        lemma_floor_log2_below(longest as int);
    }
    while n > 1
        invariant
            1 <= n <= longest,
            halvings + floor_log2(n as int) == floor_log2(longest as int),
            floor_log2(longest as int) < longest,
        decreases n,
    {
        proof {
            lemma_floor_log2_below(n as int / 2);
        }
        n = n / 2;
        halvings = halvings + 1;
    }
    let count = halvings + 1;
    if count < 10 {
        count
    } else {
        10
    }
}

/// Two to the power `k`.
pub open spec fn two_to(k: nat) -> nat
    decreases k,
{
    if k == 0 {
        1
    } else {
        2 * two_to((k - 1) as nat)
    }
}

/// The whole part of the base-two logarithm of `n` is the `k` with
/// `2^k <= n < 2^(k + 1)`.
pub proof fn floor_log2_brackets(n: int)
    requires
        n >= 1,
    ensures
        floor_log2(n) >= 0,
        two_to(floor_log2(n) as nat) <= n < 2 * two_to(floor_log2(n) as nat),
    decreases n,
{
    if n >= 2 {
        floor_log2_brackets(n / 2);
        let k = floor_log2(n / 2);
        assert(two_to((k + 1) as nat) == 2 * two_to(k as nat));
    }
}

} // verus!
