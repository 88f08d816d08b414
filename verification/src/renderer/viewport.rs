//! Which tiles of the slippy map a window shows.

use crate::binary::Binary64;
#[allow(unused_imports)]
use crate::binary::{clamp, floor, floor_is_just_below};
#[allow(unused_imports)]
use crate::tiles::lemma_grid_index;
use vstd::arithmetic::div_mod::lemma_fundamental_div_mod_converse;
use vstd::arithmetic::mul::lemma_mul_is_commutative;
use vstd::arithmetic::power2::{
    lemma2_to64, lemma_pow2_pos, lemma_pow2_strictly_increases, pow2,
};
use vstd::bits::{lemma_u64_pow2_no_overflow, lemma_u64_shl_is_mul};
use vstd::prelude::*;

verus! {

/// Viewport state: the only thing the renderer needs to know about the map.
#[derive(Clone, Copy, Debug)]
pub struct MapViewport {
    /// Geographic centre of the window.
    pub center_lon: Binary64,
    pub center_lat: Binary64,
    pub zoom: Binary64,
    /// Window dimensions in physical pixels.
    pub screen_w: u32,
    pub screen_h: u32,
}

/// How many tiles to look at on each side of the centre, for a window of
/// `pixels` pixels: half the window, rounded up to whole tiles, and one more.
pub open spec fn reach(pixels: u32) -> int {
    (pixels + 511) / 512 + 1
}

/// The first column or row in reach of `center`.
pub open spec fn first_in_reach(center: i64, pixels: u32) -> int {
    if center < reach(pixels) {
        0
    } else {
        center - reach(pixels)
    }
}

/// The last column or row in reach of `center`, in a grid of `n`.
pub open spec fn last_in_reach(center: i64, pixels: u32, n: int) -> int {
    if center + reach(pixels) < n {
        center + reach(pixels)
    } else {
        n - 1
    }
}

/// The tiles from column `x0` to `x1` and from row `y0` to `y1`, row by row.
pub open spec fn tile_rows(x0: int, y0: int, x1: int, y1: int) -> Seq<(u32, u32)> {
    if x0 > x1 || y0 > y1 {
        Seq::empty()
    } else {
        let cols = x1 - x0 + 1;
        Seq::new(
            (cols * (y1 - y0 + 1)) as nat,
            |k: int| ((x0 + k % cols) as u32, (y0 + k / cols) as u32),
        )
    }
}

impl MapViewport {
    pub fn new(lon: Binary64, lat: Binary64, zoom: Binary64, w: u32, h: u32) -> (r: MapViewport)
        ensures
            r == (MapViewport {
                center_lon: lon,
                center_lat: lat,
                zoom,
                screen_w: w,
                screen_h: h,
            }),
    {
        MapViewport { center_lon: lon, center_lat: lat, zoom, screen_w: w, screen_h: h }
    }

    /// The whole zoom level at which tiles are shown.
    pub open spec fn level(self) -> int {
        if self.zoom.is_nan() {
            0
        } else {
            clamp(floor(self.zoom.value()), 0, 19)
        }
    }

    /// Integer zoom level for tile requests.
    pub fn tile_zoom(&self) -> (r: u8)
        ensures
            r == self.level(),
            r <= 19,
            !self.zoom.is_nan() && r > 0 ==> r * pow2(1074) <= self.zoom.value(),
            !self.zoom.is_nan() && r < 19 ==> self.zoom.value() < (r + 1) * pow2(1074),
            self.zoom.is_nan() ==> r == 0,
    {
        proof {
            tile_zoom_is_rounded_down(*self);
        }
        self.zoom.floor_to(19)
    }

    /// The tiles on the screen when its centre lies in tile (`cx`, `cy`).
    pub open spec fn tiles_around(self, cx: i64, cy: i64) -> Seq<(u32, u32)> {
        let n = pow2(self.level() as nat) as int;
        tile_rows(
            first_in_reach(cx, self.screen_w),
            first_in_reach(cy, self.screen_h),
            last_in_reach(cx, self.screen_w, n),
            last_in_reach(cy, self.screen_h, n),
        )
    }

    /// All (x, y) tile indices visible in the current viewport, row by row.
    /// `cx_tile` and `cy_tile` are the column and the row of the tile that
    /// contains the screen centre.
    pub fn visible_tiles(&self, cx_tile: i64, cy_tile: i64) -> (r: Vec<(u32, u32)>)
        requires
            i64::MIN <= cx_tile - reach(self.screen_w),
            cx_tile + reach(self.screen_w) <= i64::MAX,
            i64::MIN <= cy_tile - reach(self.screen_h),
            cy_tile + reach(self.screen_h) <= i64::MAX,
        ensures
            r@ == self.tiles_around(cx_tile, cy_tile),
            forall|x: u32, y: u32| #[trigger]
                r@.contains((x, y)) <==> {
                    &&& x < pow2(self.level() as nat) && y < pow2(self.level() as nat)
                    &&& 512 * (x - cx_tile - 2) < self.screen_w
                    &&& 512 * (cx_tile - x - 2) < self.screen_w
                    &&& 512 * (y - cy_tile - 2) < self.screen_h
                    &&& 512 * (cy_tile - y - 2) < self.screen_h
                },
            forall|i: int, j: int|
                0 <= i < j < r@.len() ==> (#[trigger] r@[i]).1 < (#[trigger] r@[j]).1 || (r@[i].1
                    == r@[j].1 && r@[i].0 < r@[j].0),
    {
        let z = self.tile_zoom();
        proof {
            assert forall|x: u32, y: u32| #[trigger]
                self.tiles_around(cx_tile, cy_tile).contains((x, y)) <==> {
                    &&& x < pow2(self.level() as nat) && y < pow2(self.level() as nat)
                    &&& 512 * (x - cx_tile - 2) < self.screen_w
                    &&& 512 * (cx_tile - x - 2) < self.screen_w
                    &&& 512 * (y - cy_tile - 2) < self.screen_h
                    &&& 512 * (cy_tile - y - 2) < self.screen_h
                } by {
                visible_tiles_reach_half_a_window(*self, cx_tile, cy_tile, x, y);
            }
            visible_tiles_go_row_by_row(*self, cx_tile, cy_tile);
        }
        proof {
            lemma_u64_pow2_no_overflow(z as nat);
            lemma_u64_shl_is_mul(1, z as u64);
            lemma_pow2_pos(z as nat);
            if z < 20 {
                lemma_pow2_strictly_increases(z as nat, 20);
            }
            assert(pow2(20) == 0x100000) by {
                lemma2_to64();
            }
        }
        let n: i64 = (1u64 << (z as u64)) as i64;
        let extra_x: i64 = (self.screen_w as i64 + 511) / 512 + 1;
        let extra_y: i64 = (self.screen_h as i64 + 511) / 512 + 1;
        let x0: i64 = if cx_tile < extra_x {
            0
        } else {
            cx_tile - extra_x
        };
        let y0: i64 = if cy_tile < extra_y {
            0
        } else {
            cy_tile - extra_y
        };
        let x1: i64 = if cx_tile + extra_x < n {
            cx_tile + extra_x
        } else {
            n - 1
        };
        let y1: i64 = if cy_tile + extra_y < n {
            cy_tile + extra_y
        } else {
            n - 1
        };
        let mut tiles: Vec<(u32, u32)> = Vec::new();
        if x0 > x1 || y0 > y1 {
            assert(tiles@ =~= tile_rows(x0 as int, y0 as int, x1 as int, y1 as int));
            return tiles;
        }
        let ghost cols: int = x1 - x0 + 1;
        let mut y: i64 = y0;
        assert((y - y0) * cols == 0) by (nonlinear_arith)
            requires
                y == y0,
        ;
        while y <= y1
            invariant
                0 <= x0 <= x1 < 0x100000,
                0 <= y0 <= y <= y1 + 1,
                y1 < 0x100000,
                cols == x1 - x0 + 1,
                tiles@.len() == (y - y0) * cols,
                forall|k: int|
                    0 <= k < tiles@.len() ==> #[trigger] tiles@[k] == (
                        (x0 + k % cols) as u32,
                        (y0 + k / cols) as u32,
                    ),
            decreases y1 + 1 - y,
        {
            let mut x: i64 = x0;
            while x <= x1
                invariant
                    0 <= x0 <= x <= x1 + 1,
                    x1 < 0x100000,
                    0 <= y0 <= y <= y1 < 0x100000,
                    cols == x1 - x0 + 1,
                    tiles@.len() == (y - y0) * cols + (x - x0),
                    forall|k: int|
                        0 <= k < tiles@.len() ==> #[trigger] tiles@[k] == (
                            (x0 + k % cols) as u32,
                            (y0 + k / cols) as u32,
                        ),
                decreases x1 + 1 - x,
            {
                proof {
                    lemma_fundamental_div_mod_converse(tiles@.len() as int, cols, y - y0, x - x0);
                }
                tiles.push((x as u32, y as u32));
                x += 1;
            }
            assert((y - y0) * cols + cols == (y + 1 - y0) * cols) by (nonlinear_arith);
            y += 1;
        }
        assert((y1 + 1 - y0) * cols == cols * (y1 - y0 + 1)) by (nonlinear_arith);
        assert(tiles@ =~= tile_rows(x0 as int, y0 as int, x1 as int, y1 as int));
        assert(tiles@ == self.tiles_around(cx_tile, cy_tile));
        tiles
    }
}

/// The tiles on the screen are those of the grid that lie within reach of the
/// centre, each once.
pub proof fn visible_tiles_are_those_in_reach(
    viewport: MapViewport,
    cx: i64,
    cy: i64,
    x: u32,
    y: u32,
)
    ensures
        viewport.tiles_around(cx, cy).contains((x, y)) <==> {
            let n = pow2(viewport.level() as nat) as int;
            &&& x < n && y < n
            &&& cx - reach(viewport.screen_w) <= x <= cx + reach(viewport.screen_w)
            &&& cy - reach(viewport.screen_h) <= y <= cy + reach(viewport.screen_h)
        },
        viewport.tiles_around(cx, cy).no_duplicates(),
{
    let n = pow2(viewport.level() as nat) as int;
    lemma2_to64();
    if viewport.level() < 20 {
        lemma_pow2_strictly_increases(viewport.level() as nat, 20);
    }
    let (x0, x1) = (first_in_reach(cx, viewport.screen_w), last_in_reach(cx, viewport.screen_w, n));
    let (y0, y1) = (first_in_reach(cy, viewport.screen_h), last_in_reach(cy, viewport.screen_h, n));
    let tiles = viewport.tiles_around(cx, cy);
    if x0 <= x1 && y0 <= y1 {
        let (cols, rows) = (x1 - x0 + 1, y1 - y0 + 1);
        lemma_mul_is_commutative(cols, rows);
        if tiles.contains((x, y)) {
            let k = choose|k: int| 0 <= k < tiles.len() && tiles[k] == (x, y);
            lemma_grid_index(k, rows, cols);
        }
        if x0 <= x <= x1 && y0 <= y <= y1 {
            let k = (y - y0) * cols + (x - x0);
            assert(0 <= k < rows * cols) by (nonlinear_arith)
                requires
                    k == (y - y0) * cols + (x - x0),
                    0 <= x - x0 < cols,
                    0 <= y - y0 < rows,
            ;
            lemma_fundamental_div_mod_converse(k, cols, y - y0, x - x0);
            assert(tiles[k] == (x, y));
        }
        assert forall|i: int, j: int| 0 <= i < tiles.len() && 0 <= j < tiles.len() && i != j implies
            tiles[i] != tiles[j] by {
            lemma_grid_index(i, rows, cols);
            lemma_grid_index(j, rows, cols);
        }
    }
}

/// The tiles listed on each side of the centre are half the window in tiles of
/// 256 pixels, rounded up, and one more.
pub proof fn reach_is_half_the_window_and_one_more(pixels: u32)
    ensures
        256 * (reach(pixels) - 1) >= pixels / 2,
        512 * (reach(pixels) - 1) >= pixels,
        512 * (reach(pixels) - 2) < pixels || pixels == 0,
        pixels == 0 ==> reach(pixels) == 1,
{
}

/// A tile of the grid is listed exactly if it lies less than half the window and
/// two tiles away from the centre, in columns and in rows.
pub proof fn visible_tiles_reach_half_a_window(
    viewport: MapViewport,
    cx: i64,
    cy: i64,
    x: u32,
    y: u32,
)
    ensures
        viewport.tiles_around(cx, cy).contains((x, y)) <==> {
            &&& x < pow2(viewport.level() as nat) && y < pow2(viewport.level() as nat)
            &&& 512 * (x - cx - 2) < viewport.screen_w
            &&& 512 * (cx - x - 2) < viewport.screen_w
            &&& 512 * (y - cy - 2) < viewport.screen_h
            &&& 512 * (cy - y - 2) < viewport.screen_h
        },
{
    visible_tiles_are_those_in_reach(viewport, cx, cy, x, y);
}

/// The tiles listed cover the window: wherever in its tile the centre lies, at
/// (`px`, `py`) from its top left, every tile of the grid that the window
/// overlaps is listed. A tile is 256 pixels wide and high.
pub proof fn visible_tiles_cover_the_window(
    viewport: MapViewport,
    cx: i64,
    cy: i64,
    px: int,
    py: int,
    x: u32,
    y: u32,
)
    requires
        0 <= px < 256,
        0 <= py < 256,
        x < pow2(viewport.level() as nat),
        y < pow2(viewport.level() as nat),
        2 * (256 * (x - cx) - px) < viewport.screen_w,
        2 * (256 * (x - cx) - px + 256) > -viewport.screen_w,
        2 * (256 * (y - cy) - py) < viewport.screen_h,
        2 * (256 * (y - cy) - py + 256) > -viewport.screen_h,
    ensures
        viewport.tiles_around(cx, cy).contains((x, y)),
{
    visible_tiles_reach_half_a_window(viewport, cx, cy, x, y);
}

/// The tiles listed come row by row, and within a row column by column.
pub proof fn visible_tiles_go_row_by_row(viewport: MapViewport, cx: i64, cy: i64)
    ensures
        forall|i: int, j: int|
            0 <= i < j < viewport.tiles_around(cx, cy).len() ==> {
                let (a, b) = (
                    #[trigger] viewport.tiles_around(cx, cy)[i],
                    #[trigger] viewport.tiles_around(cx, cy)[j],
                );
                a.1 < b.1 || (a.1 == b.1 && a.0 < b.0)
            },
{
    let n = pow2(viewport.level() as nat) as int;
    lemma2_to64();
    if viewport.level() < 20 {
        lemma_pow2_strictly_increases(viewport.level() as nat, 20);
    }
    let (x0, x1) = (first_in_reach(cx, viewport.screen_w), last_in_reach(cx, viewport.screen_w, n));
    let (y0, y1) = (first_in_reach(cy, viewport.screen_h), last_in_reach(cy, viewport.screen_h, n));
    let tiles = viewport.tiles_around(cx, cy);
    if x0 <= x1 && y0 <= y1 {
        let (cols, rows) = (x1 - x0 + 1, y1 - y0 + 1);
        lemma_mul_is_commutative(cols, rows);
        assert forall|i: int, j: int| 0 <= i < j < tiles.len() implies {
            let (a, b) = (#[trigger] tiles[i], #[trigger] tiles[j]);
            a.1 < b.1 || (a.1 == b.1 && a.0 < b.0)
        } by {
            lemma_grid_index(i, rows, cols);
            lemma_grid_index(j, rows, cols);
            let (p, q) = (i / cols, j / cols);
            if p > q {
                assert(p * cols >= q * cols + cols) by (nonlinear_arith)
                    requires
                        p >= q + 1,
                        cols >= 0,
                ;
            }
        }
    }
}

/// Tiles are shown at the zoom rounded down to a whole level from 0 to 19.
pub proof fn tile_zoom_is_rounded_down(viewport: MapViewport)
    ensures
        0 <= viewport.level() <= 19,
        viewport.zoom.is_nan() ==> viewport.level() == 0,
        !viewport.zoom.is_nan() && viewport.level() > 0 ==> viewport.level() * pow2(1074)
            <= viewport.zoom.value(),
        !viewport.zoom.is_nan() && viewport.level() < 19 ==> viewport.zoom.value() < (
        viewport.level() + 1) * pow2(1074),
{
    let v = viewport.zoom.value();
    let d = pow2(1074) as int;
    let f = floor(v);
    lemma_pow2_pos(1074);
    floor_is_just_below(v);
    if f > 19 {
        assert(19 * d <= f * d) by (nonlinear_arith)
            requires
                f >= 19,
                d > 0,
        ;
    }
    if f < 0 {
        assert((f + 1) * d <= 0) by (nonlinear_arith)
            requires
                f + 1 <= 0,
                d > 0,
        ;
    }
}

} // verus!
