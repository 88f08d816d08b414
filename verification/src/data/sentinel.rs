//! Sentinel-2 imagery: the scene search, and the tiles of the scene found.

use crate::binary::Binary64;
#[allow(unused_imports)]
use crate::clock::elapsed;
use crate::clock::nanos_since;
#[allow(unused_imports)]
use crate::data::decoded_image;
use crate::data::{load_raster, place_raster, GeoBounds, GeoImage};
use crate::http::{ureq_err, HttpFailure};
use crate::text::push_decimal;
#[allow(unused_imports)]
use crate::text::{all_digits, decimal, decimal_round_trips, decimal_value, number_is_readable};
#[allow(unused_imports)]
use crate::tiles::lemma_grid_index;
use crate::ui::map_view::MapViewport;
use vstd::arithmetic::div_mod::lemma_fundamental_div_mod_converse;
use vstd::arithmetic::power2::{lemma_pow2_pos, pow2};
use vstd::bits::{lemma_u32_pow2_no_overflow, lemma_u32_shl_is_mul};
use vstd::prelude::*;
use vstd::string::*;
#[allow(unused_imports)]
use vstd::utf8::{encode_utf8, encode_utf8_decode_utf8};

verus! {

/// The tile server that renders a scene's image into map tiles.
pub const TITILER_BASE: &'static str = "https://titiler.xyz";

/// A byte that stands for itself in a query parameter.
pub open spec fn is_unreserved(b: u8) -> bool {
    ||| 48 <= b <= 57
    ||| 65 <= b <= 90
    ||| 97 <= b <= 122
    ||| b == 45
    ||| b == 95
    ||| b == 46
    ||| b == 126
}

/// The upper-case hexadecimal digit for `d`.
pub open spec fn hex_digit(d: int) -> char {
    if d < 10 {
        (48 + d) as char
    } else {
        (55 + d) as char
    }
}

/// How one byte is written in a query parameter.
pub open spec fn encoded_byte(b: u8) -> Seq<char> {
    if is_unreserved(b) {
        seq![b as char]
    } else {
        seq!['%', hex_digit((b / 16) as int), hex_digit((b % 16) as int)]
    }
}

/// How a run of bytes is written in a query parameter.
pub open spec fn percent_encoded(bytes: Seq<u8>) -> Seq<char>
    decreases bytes.len(),
{
    if bytes.len() == 0 {
        Seq::empty()
    } else {
        encoded_byte(bytes[0]) + percent_encoded(bytes.drop_first())
    }
}

/// What a hexadecimal digit is worth.
pub open spec fn hex_value(c: char) -> int {
    if c <= '9' {
        c as int - 48
    } else {
        c as int - 55
    }
}

/// The bytes that a query parameter writes: `%` and two digits for one byte,
/// any other character for itself.
pub open spec fn percent_decoded(s: Seq<char>) -> Seq<u8>
    decreases s.len(),
{
    if s.len() == 0 {
        Seq::empty()
    } else if s[0] == '%' && s.len() >= 3 {
        seq![(16 * hex_value(s[1]) + hex_value(s[2])) as u8] + percent_decoded(s.skip(3))
    } else {
        seq![s[0] as u8] + percent_decoded(s.skip(1))
    }
}

/// Decoding an encoded parameter gives its bytes back.
pub proof fn percent_encoding_round_trips(bytes: Seq<u8>)
    ensures
        percent_decoded(percent_encoded(bytes)) == bytes,
    decreases bytes.len(),
{
    if bytes.len() > 0 {
        let b = bytes[0];
        let rest = percent_encoded(bytes.drop_first());
        let s = percent_encoded(bytes);
        percent_encoding_round_trips(bytes.drop_first());
        if is_unreserved(b) {
            assert(s.skip(1) =~= rest);
            assert(s[0] == b as char);
            assert(s[0] as u8 == b);
        } else {
            assert(s.skip(3) =~= rest);
            assert(s[0] == '%');
            assert(hex_value(s[1]) == b / 16);
            assert(hex_value(s[2]) == b % 16);
        }
        assert(bytes =~= seq![b] + bytes.drop_first());
    }
}

/// Two texts that are encoded alike are the same text.
pub proof fn percent_encoding_is_injective(s: Seq<char>, t: Seq<char>)
    requires
        percent_encoded(encode_utf8(s)) == percent_encoded(encode_utf8(t)),
    ensures
        s == t,
{
    percent_encoding_round_trips(encode_utf8(s));
    percent_encoding_round_trips(encode_utf8(t));
    encode_utf8_decode_utf8(s);
    encode_utf8_decode_utf8(t);
}

/// An encoded parameter holds only unreserved characters and `%`, so nothing
/// in it ends the parameter or the URL.
pub proof fn percent_encoding_is_url_safe(bytes: Seq<u8>, i: int)
    requires
        0 <= i < percent_encoded(bytes).len(),
    ensures
        ({
            let c = percent_encoded(bytes)[i];
            c == '%' || (c as int <= 255 && is_unreserved(c as u8))
        }),
        ({
            let c = percent_encoded(bytes)[i];
            c == '%' || 'a' <= c <= 'z' || 'A' <= c <= 'Z' || '0' <= c <= '9' || c == '-' || c
                == '_' || c == '.' || c == '~'
        }),
    decreases bytes.len(),
{
    if bytes.len() > 0 {
        let n = encoded_byte(bytes[0]).len();
        if i >= n {
            percent_encoding_is_url_safe(bytes.drop_first(), i - n);
        }
    }
}

/// Writes `s` so that it can stand as the value of a query parameter: letters,
/// digits, `-`, `_`, `.` and `~` as they are, every other byte as `%` and two
/// upper-case hexadecimal digits.
pub fn percent_encode(s: &str) -> (r: String)
    ensures
        r@ == percent_encoded(encode_utf8(s@)),
        forall|i: int|
            0 <= i < r@.len() ==> {
                let c = #[trigger] r@[i];
                c == '%' || 'a' <= c <= 'z' || 'A' <= c <= 'Z' || '0' <= c <= '9' || c == '-' || c
                    == '_' || c == '.' || c == '~'
            },
{
    let bytes = s.as_bytes();
    let mut r = String::new();
    assert(bytes@.skip(0) =~= bytes@);
    let n: usize = bytes.len();
    for i in 0..n
        invariant
            n == bytes@.len(),
            percent_encoded(bytes@) == r@ + percent_encoded(bytes@.skip(i as int)),
    {
        let b = bytes[i];
        assert(bytes@.skip(i as int).drop_first() =~= bytes@.skip(i + 1));
        let ghost before = r@;
        if (48 <= b && b <= 57) || (65 <= b && b <= 90) || (97 <= b && b <= 122) || b == 45
            || b == 95 || b == 46 || b == 126 {
            r.push(b as char);
        } else {
            r.push('%');
            push_hex_digit(&mut r, b / 16);
            push_hex_digit(&mut r, b % 16);
        }
        assert(r@ =~= before + encoded_byte(b));
        assert(r@ + percent_encoded(bytes@.skip(i + 1)) =~= before + percent_encoded(
            bytes@.skip(i as int),
        ));
    }
    assert(bytes@.skip(n as int) =~= Seq::<u8>::empty());
    assert(r@ + Seq::<char>::empty() =~= r@);
    assert(r@ == percent_encoded(bytes@));
    proof {
        assert forall|i: int| 0 <= i < r@.len() implies {
            let c = #[trigger] r@[i];
            c == '%' || 'a' <= c <= 'z' || 'A' <= c <= 'Z' || '0' <= c <= '9' || c == '-' || c
                == '_' || c == '.' || c == '~'
        } by {
            percent_encoding_is_url_safe(bytes@, i);
        }
    }
    r
}

fn push_hex_digit(s: &mut String, d: u8)
    requires
        d < 16,
    ensures
        final(s)@ == old(s)@.push(hex_digit(d as int)),
{
    if d < 10 {
        s.push((48 + d) as char);
    } else {
        s.push((55 + d) as char);
    }
}

/// The URL of one map tile of the image at `cog_url`.
pub open spec fn tile_url(cog_url: Seq<char>, z: nat, x: nat, y: nat) -> Seq<char> {
    TITILER_BASE@ + "/cog/tiles/WebMercatorQuad/"@ + decimal(z) + "/"@ + decimal(x) + "/"@ + decimal(
        y,
    ) + ".png?url="@ + percent_encoded(encode_utf8(cog_url))
        + "&bidx=1&bidx=2&bidx=3&rescale=0,3000"@
}

/// The URL of tile (`x`, `y`) at zoom `z` of the image at `cog_url`, in true
/// colour.
pub fn titiler_tile_url(cog_url: &str, z: u8, x: u32, y: u32) -> (r: String)
    ensures
        r@ == tile_url(cog_url@, z as nat, x as nat, y as nat),
        r@ == "https://titiler.xyz"@ + "/cog/tiles/WebMercatorQuad/"@ + decimal(z as nat) + "/"@
            + decimal(x as nat) + "/"@ + decimal(y as nat) + ".png?url="@ + percent_encoded(
            encode_utf8(cog_url@),
        ) + "&bidx=1&bidx=2&bidx=3&rescale=0,3000"@,
{
    let enc = percent_encode(cog_url);
    let mut r = TITILER_BASE.to_owned();
    r.append("/cog/tiles/WebMercatorQuad/");
    push_decimal(&mut r, z as u64);
    r.append("/");
    push_decimal(&mut r, x as u64);
    r.append("/");
    push_decimal(&mut r, y as u64);
    r.append(".png?url=");
    r.append(enc.as_str());
    r.append("&bidx=1&bidx=2&bidx=3&rescale=0,3000");
    r
}

/// A tile's URL tells which image it is of, and which tile it is.
pub proof fn tile_urls_differ(
    cog_url: Seq<char>,
    z: nat,
    x: nat,
    y: nat,
    other_url: Seq<char>,
    oz: nat,
    ox: nat,
    oy: nat,
)
    requires
        tile_url(cog_url, z, x, y) == tile_url(other_url, oz, ox, oy),
    ensures
        cog_url == other_url,
        (z, x, y) == (oz, ox, oy),
{
    reveal_strlit("/");
    reveal_strlit(".png?url=");
    decimal_round_trips(z);
    decimal_round_trips(x);
    decimal_round_trips(y);
    decimal_round_trips(oz);
    decimal_round_trips(ox);
    decimal_round_trips(oy);
    let base = TITILER_BASE@;
    let path = "/cog/tiles/WebMercatorQuad/"@;
    let mark = ".png?url="@;
    let tail = "&bidx=1&bidx=2&bidx=3&rescale=0,3000"@;
    let dot = mark.take(1);
    let word = mark.skip(1);
    let (e, f) = (percent_encoded(encode_utf8(cog_url)), percent_encoded(encode_utf8(other_url)));
    let (s3, t3) = (word + e + tail, word + f + tail);
    let (s2, t2) = (decimal(y) + dot + s3, decimal(oy) + dot + t3);
    let (s1, t1) = (decimal(x) + "/"@ + s2, decimal(ox) + "/"@ + t2);
    lemma_regroup(base, path, decimal(z), "/"@, decimal(x), decimal(y), mark, e, tail);
    lemma_regroup(base, path, decimal(oz), "/"@, decimal(ox), decimal(oy), mark, f, tail);
    number_is_readable(decimal(z), s1, decimal(oz), t1, "/"@);
    number_is_readable(decimal(x), s2, decimal(ox), t2, "/"@);
    number_is_readable(decimal(y), s3, decimal(oy), t3, dot);
    assert(s3.subrange(word.len() as int, (word.len() + e.len()) as int) =~= e);
    assert(t3.subrange(word.len() as int, (word.len() + f.len()) as int) =~= f);
    percent_encoding_is_injective(cog_url, other_url);
}

proof fn lemma_regroup(
    base: Seq<char>,
    path: Seq<char>,
    z: Seq<char>,
    sep: Seq<char>,
    x: Seq<char>,
    y: Seq<char>,
    mark: Seq<char>,
    e: Seq<char>,
    tail: Seq<char>,
)
    requires
        mark.len() > 0,
    ensures
        (base + path + z + sep + x + sep + y + mark + e + tail).skip(
            (base.len() + path.len()) as int,
        ) == z + sep + (x + sep + (y + mark.take(1) + (mark.skip(1) + e + tail))),
{
    assert(mark =~= mark.take(1) + mark.skip(1));
    assert((base + path + z + sep + x + sep + y + mark + e + tail).skip(
        (base.len() + path.len()) as int,
    ) =~= z + sep + (x + sep + (y + mark.take(1) + (mark.skip(1) + e + tail))));
}

/// The request that asks for the least cloudy scenes over an area. The corners
/// of the area are numbers, already written as JSON.
pub fn stac_search_body(min_lon: &str, min_lat: &str, max_lon: &str, max_lat: &str) -> (r: String)
    ensures
        r@ == "{\"bbox\":["@ + min_lon@ + ","@ + min_lat@ + ","@ + max_lon@ + ","@ + max_lat@
            + "],\"collections\":[\"sentinel-2-l2a\"],\"limit\":10,\"query\":{\"eo:cloud_cover\":{\"lt\":30}},\"sortby\":[{\"direction\":\"asc\",\"field\":\"properties.eo:cloud_cover\"}]}"@,
{
    let mut r = "{\"bbox\":[".to_owned();
    r.append(min_lon);
    r.append(",");
    r.append(min_lat);
    r.append(",");
    r.append(max_lon);
    r.append(",");
    r.append(max_lat);
    r.append(
        "],\"collections\":[\"sentinel-2-l2a\"],\"limit\":10,\"query\":{\"eo:cloud_cover\":{\"lt\":30}},\"sortby\":[{\"direction\":\"asc\",\"field\":\"properties.eo:cloud_cover\"}]}",
    );
    r
}

/// The last column, and the last row, of the tile grid at zoom `z`.
pub open spec fn last_index(z: u8) -> int {
    pow2(z as nat) - 1
}

/// `index`, or the last index of the grid at zoom `z` where it lies beyond.
pub open spec fn in_grid(z: u8, index: u32) -> u32 {
    if index <= last_index(z) {
        index
    } else {
        last_index(z) as u32
    }
}

/// Brings a column and a row into the tile grid at zoom `z`.
pub fn clamp_to_grid(z: u8, column: u32, row: u32) -> (r: (u32, u32))
    requires
        z < 32,
    ensures
        r == (in_grid(z, column), in_grid(z, row)),
        r.0 as int == if column < pow2(z as nat) {
            column as int
        } else {
            pow2(z as nat) - 1
        },
        r.1 as int == if row < pow2(z as nat) {
            row as int
        } else {
            pow2(z as nat) - 1
        },
{
    proof {
        lemma_u32_pow2_no_overflow(z as nat);
        lemma_u32_shl_is_mul(1, z as u32);
        lemma_pow2_pos(z as nat);
    }
    let last: u32 = (1u32 << (z as u32)) - 1;
    (
        if column <= last {
            column
        } else {
            last
        },
        if row <= last {
            row
        } else {
            last
        },
    )
}

/// How many whole numbers there are from `low` to `high`.
pub open spec fn span(low: int, high: int) -> nat {
    if low <= high {
        (high - low + 1) as nat
    } else {
        0
    }
}

/// The tiles from column `x0` to `x1` and from row `y0` to `y1`, column by
/// column.
pub open spec fn tile_block(x0: u32, y0: u32, x1: u32, y1: u32) -> Seq<(u32, u32)> {
    let rows = span(y0 as int, y1 as int) as int;
    Seq::new(
        span(x0 as int, x1 as int) * span(y0 as int, y1 as int),
        |k: int| ((x0 + k / rows) as u32, (y0 + k % rows) as u32),
    )
}

/// The tiles at zoom `z` that cover an area between two corners.
pub open spec fn area_tiles(z: u8, nw: (u32, u32), se: (u32, u32)) -> Seq<(u32, u32)> {
    tile_block(in_grid(z, nw.0), in_grid(z, nw.1), in_grid(z, se.0), in_grid(z, se.1))
}

/// The tiles at zoom `z` that cover an area, column by column. The corners are
/// the column and the row of its north-west and its south-east point, which
/// may lie beyond the grid.
pub fn tiles_for_bounds(z: u8, nw: (u32, u32), se: (u32, u32)) -> (r: Vec<(u32, u32)>)
    requires
        z < 32,
    ensures
        r@ == area_tiles(z, nw, se),
        forall|x: u32, y: u32| #[trigger]
            r@.contains((x, y)) <==> x < pow2(z as nat) && y < pow2(z as nat) && (nw.0 <= x || x
                == pow2(z as nat) - 1) && x <= se.0 && (nw.1 <= y || y == pow2(z as nat) - 1) && y
                <= se.1,
        forall|i: int, j: int|
            0 <= i < j < r@.len() ==> (#[trigger] r@[i]).0 < (#[trigger] r@[j]).0 || (r@[i].0
                == r@[j].0 && r@[i].1 < r@[j].1),
{
    proof {
        assert forall|x: u32, y: u32| #[trigger]
            area_tiles(z, nw, se).contains((x, y)) <==> x < pow2(z as nat) && y < pow2(z as nat)
                && (nw.0 <= x || x == pow2(z as nat) - 1) && x <= se.0 && (nw.1 <= y || y == pow2(
                z as nat,
            ) - 1) && y <= se.1 by {
            area_reaches_from_corner_to_corner(z, nw, se, x, y);
        }
        area_tiles_go_column_by_column(z, nw, se);
    }
    let (x0, y0) = clamp_to_grid(z, nw.0, nw.1);
    let (x1, y1) = clamp_to_grid(z, se.0, se.1);
    tiles_between(x0, y0, x1, y1)
}

/// The tiles from column `x0` to `x1` and from row `y0` to `y1`, column by
/// column.
fn tiles_between(x0: u32, y0: u32, x1: u32, y1: u32) -> (r: Vec<(u32, u32)>)
    ensures
        r@ == tile_block(x0, y0, x1, y1),
{
    let mut tiles: Vec<(u32, u32)> = Vec::new();
    if x0 > x1 || y0 > y1 {
        proof {
            assert(span(x0 as int, x1 as int) * span(y0 as int, y1 as int) == 0) by (nonlinear_arith)
                requires
                    span(x0 as int, x1 as int) == 0 || span(y0 as int, y1 as int) == 0,
            ;
            assert(tiles@ =~= tile_block(x0, y0, x1, y1));
        }
        return tiles;
    }
    let ghost rows: int = y1 - y0 + 1;
    let mut x: u64 = x0 as u64;
    assert((x - x0) * rows == 0) by (nonlinear_arith)
        requires
            x == x0,
    ;
    while x <= x1 as u64
        invariant
            x0 <= x <= x1 + 1,
            y0 <= y1,
            rows == y1 - y0 + 1,
            tiles@.len() == (x - x0) * rows,
            forall|k: int|
                0 <= k < tiles@.len() ==> #[trigger] tiles@[k] == (
                    (x0 + k / rows) as u32,
                    (y0 + k % rows) as u32,
                ),
        decreases x1 + 1 - x,
    {
        let mut y: u64 = y0 as u64;
        while y <= y1 as u64
            invariant
                x0 <= x <= x1,
                y0 <= y <= y1 + 1,
                rows == y1 - y0 + 1,
                tiles@.len() == (x - x0) * rows + (y - y0),
                forall|k: int|
                    0 <= k < tiles@.len() ==> #[trigger] tiles@[k] == (
                        (x0 + k / rows) as u32,
                        (y0 + k % rows) as u32,
                    ),
            decreases y1 + 1 - y,
        {
            proof {
                let k = tiles@.len() as int;
                lemma_fundamental_div_mod_converse(k, rows, x - x0, y - y0);
            }
            tiles.push((x as u32, y as u32));
            y += 1;
        }
        assert((x - x0) * rows + rows == (x + 1 - x0) * rows) by (nonlinear_arith);
        x += 1;
    }
    assert(tiles@ =~= tile_block(x0, y0, x1, y1));
    tiles
}

/// A tile is in the block exactly if its column and its row lie in range, and
/// then it is there once.
pub proof fn block_holds_each_tile_once(x0: u32, y0: u32, x1: u32, y1: u32, x: u32, y: u32)
    ensures
        tile_block(x0, y0, x1, y1).contains((x, y)) <==> x0 <= x <= x1 && y0 <= y <= y1,
        tile_block(x0, y0, x1, y1).no_duplicates(),
{
    let block = tile_block(x0, y0, x1, y1);
    let cols = span(x0 as int, x1 as int) as int;
    let rows = span(y0 as int, y1 as int) as int;
    if block.contains((x, y)) {
        let k = choose|k: int| 0 <= k < block.len() && block[k] == (x, y);
        lemma_grid_index(k, cols, rows);
    }
    if x0 <= x <= x1 && y0 <= y <= y1 {
        let k = (x - x0) * rows + (y - y0);
        assert(0 <= k < cols * rows) by (nonlinear_arith)
            requires
                k == (x - x0) * rows + (y - y0),
                0 <= x - x0 < cols,
                0 <= y - y0 < rows,
        ;
        lemma_fundamental_div_mod_converse(k, rows, x - x0, y - y0);
        assert(block[k] == (x, y));
    }
    assert forall|i: int, j: int| 0 <= i < block.len() && 0 <= j < block.len() && i != j implies
        block[i] != block[j] by {
        lemma_grid_index(i, cols, rows);
        lemma_grid_index(j, cols, rows);
    }
}

/// Every tile of an area is a tile of the grid at its zoom.
pub proof fn area_tiles_are_in_the_grid(z: u8, nw: (u32, u32), se: (u32, u32), i: int)
    requires
        z < 32,
        0 <= i < area_tiles(z, nw, se).len(),
    ensures
        area_tiles(z, nw, se)[i].0 <= last_index(z),
        area_tiles(z, nw, se)[i].1 <= last_index(z),
{
    let tiles = area_tiles(z, nw, se);
    lemma_u32_pow2_no_overflow(z as nat);
    lemma_pow2_pos(z as nat);
    block_holds_each_tile_once(
        in_grid(z, nw.0),
        in_grid(z, nw.1),
        in_grid(z, se.0),
        in_grid(z, se.1),
        tiles[i].0,
        tiles[i].1,
    );
    assert(tiles.contains((tiles[i].0, tiles[i].1)));
}

/// A file of a scene.
pub struct StacAsset {
    pub href: String,
}

/// The files of a scene that can be shown.
pub struct StacAssets {
    pub visual: Option<StacAsset>,
    pub b04: Option<StacAsset>,
}

/// What is known of a scene.
pub struct StacProperties {
    pub cloud_cover: Option<Binary64>,
    pub datetime: Option<String>,
}

/// A scene that a search found.
pub struct StacFeature {
    pub id: String,
    pub properties: StacProperties,
    pub bbox: [Binary64; 4],
    pub assets: StacAssets,
}

/// Messages from the satellite fetch to the UI thread.
pub enum SentinelEvent {
    TileReady { z: u8, x: u32, y: u32, image: GeoImage },
    SceneFound {
        scene_id: String,
        bounds: GeoBounds,
        cloud_cover: Binary64,
        datetime: String,
        cog_url: String,
    },
    Error(String),
}

impl SentinelEvent {
    /// A tile that is ready has all its pixels.
    pub open spec fn wf(self) -> bool {
        self matches SentinelEvent::TileReady { image, .. } ==> image.wf()
    }
}

impl StacFeature {
    /// The file to show: the true-colour image, or else the red band.
    pub open spec fn usable_asset(self) -> Option<StacAsset> {
        match self.assets.visual {
            Some(asset) => Some(asset),
            None => self.assets.b04,
        }
    }

    /// `event` announces this scene.
    pub open spec fn announced_by(self, event: SentinelEvent) -> bool {
        &&& self.usable_asset() is Some
        &&& event matches SentinelEvent::SceneFound {
            scene_id,
            bounds,
            cloud_cover,
            datetime,
            cog_url,
        }
        &&& scene_id@ == self.id@
        &&& bounds == (GeoBounds {
            min_lon: self.bbox@[0],
            min_lat: self.bbox@[1],
            max_lon: self.bbox@[2],
            max_lat: self.bbox@[3],
        })
        &&& cloud_cover == match self.properties.cloud_cover {
            Some(c) => c,
            None => (Binary64 { bits: 0 }),
        }
        &&& datetime@ == match self.properties.datetime {
            Some(d) => d@,
            None => "unknown"@,
        }
        &&& cog_url@ == self.usable_asset()->0.href@
    }
}

/// The announcement of a scene and the address of the file to show; an error
/// where it has no file that can be shown.
pub fn scene_found(feature: StacFeature) -> (r: Result<(SentinelEvent, String), String>)
    ensures
        match r {
            Ok((event, cog_url)) => feature.announced_by(event) && cog_url@
                == feature.usable_asset()->0.href@,
            Err(e) => feature.usable_asset() is None && e@ == "no usable asset in scene"@,
        },
{
    let asset = match feature.assets.visual {
        Some(asset) => asset,
        None => match feature.assets.b04 {
            Some(asset) => asset,
            None => {
                return Err("no usable asset in scene".to_owned());
            },
        },
    };
    let cog_url = asset.href;
    let cloud_cover = match feature.properties.cloud_cover {
        Some(c) => c,
        None => Binary64 { bits: 0 },
    };
    let datetime = match feature.properties.datetime {
        Some(d) => d,
        None => "unknown".to_owned(),
    };
    let bounds = GeoBounds::new(
        feature.bbox[0],
        feature.bbox[1],
        feature.bbox[2],
        feature.bbox[3],
    );
    let event = SentinelEvent::SceneFound {
        scene_id: feature.id,
        bounds,
        cloud_cover,
        datetime,
        cog_url: cog_url.clone(),
    };
    Ok((event, cog_url))
}

/// Decodes a downloaded tile that covers `bounds`.
pub fn decode_tile(bytes: &[u8], bounds: GeoBounds) -> (r: Result<GeoImage, String>)
    ensures
        match r {
            Ok(image) => decoded_image(bytes@) == Ok::<(Seq<u8>, u32, u32), Seq<char>>(
                image.content(),
            ) && image.bounds == bounds && image.wf(),
            Err(e) => decoded_image(bytes@) is Err && e@ == "decoding tile PNG"@,
        },
{
    place_raster(load_raster(bytes), bounds, "decoding tile PNG")
}

/// What came of the request for a tile that covers `bounds`: what was
/// downloaded, if that went well, or why there was no usable reply.
pub fn received_tile(reply: Result<Option<Vec<u8>>, HttpFailure>, bounds: GeoBounds) -> (r: Result<
    GeoImage,
    String,
>)
    ensures
        match r {
            Ok(image) => {
                &&& reply matches Ok(Some(bytes)) && decoded_image(bytes@) == Ok::<
                    (Seq<u8>, u32, u32),
                    Seq<char>,
                >(image.content())
                &&& image.bounds == bounds
                &&& image.wf()
            },
            Err(e) => match reply {
                Err(failure) => e@ == failure.text(),
                Ok(None) => e@ == "tile body"@,
                Ok(Some(bytes)) => decoded_image(bytes@) is Err && e@ == "decoding tile PNG"@,
            },
        },
{
    match reply {
        Err(failure) => Err(ureq_err(failure)),
        Ok(None) => Err("tile body".to_owned()),
        Ok(Some(bytes)) => decode_tile(bytes.as_slice(), bounds),
    }
}

/// What came of a search: the scenes in the reply, if it could be read, or why
/// there was no usable reply.
pub fn received_search(reply: Result<Option<Vec<StacFeature>>, HttpFailure>) -> (r: Result<
    Vec<StacFeature>,
    String,
>)
    ensures
        match reply {
            Err(failure) => r matches Err(e) && e@ == failure.text(),
            Ok(None) => r matches Err(e) && e@ == "parsing STAC response"@,
            Ok(Some(features)) => r == Ok::<Vec<StacFeature>, String>(features),
        },
{
    match reply {
        Err(failure) => Err(ureq_err(failure)),
        Ok(None) => Err("parsing STAC response".to_owned()),
        Ok(Some(features)) => Ok(features),
    }
}

/// Seconds between the start of one fetch and the next.
pub const REFRESH_SECS: u64 = 5;

/// Milliseconds to wait between two tiles.
pub const TILE_PAUSE_MILLIS: u64 = 30;

/// What a scene fetch waits for.
#[derive(Clone, Copy, PartialEq, Eq, Structural, Debug)]
pub enum ScenePhase {
    /// To be started.
    Ready,
    /// For the result of the search.
    Searching,
    /// For the next tile.
    Waiting,
    /// For the pause after a tile.
    Resting,
    /// For nothing: the fetch is over.
    Finished,
}

/// What happened to a scene fetch.
pub enum SceneReply {
    Started,
    Searched(Result<Vec<StacFeature>, String>),
    Fetched(Result<GeoImage, String>),
    Rested,
}

/// What a scene fetch asks for next.
pub enum SceneStep {
    /// Search for scenes.
    Search,
    /// Get tile (`x`, `y`) at zoom `z` from `url`.
    Get { z: u8, x: u32, y: u32, url: String },
    /// Wait.
    Rest { millis: u64 },
    /// Note that the fetch ended.
    Finish,
}

/// The search for a scene, and the fetch of its tiles one after the other.
pub struct SceneFetch {
    pub z: u8,
    pub tiles: Vec<(u32, u32)>,
    pub cog_url: String,
    pub next: usize,
    pub phase: ScenePhase,
}

/// A scene fetch, for contracts.
pub struct SceneView {
    pub z: u8,
    pub tiles: Seq<(u32, u32)>,
    pub cog_url: Seq<char>,
    pub next: int,
    pub phase: ScenePhase,
}

impl SceneView {
    /// The fetch waits for such a reply.
    pub open spec fn accepts(self, reply: SceneReply) -> bool {
        match reply {
            SceneReply::Started => self.phase == ScenePhase::Ready,
            SceneReply::Searched(_) => self.phase == ScenePhase::Searching,
            SceneReply::Fetched(_) => self.phase == ScenePhase::Waiting,
            SceneReply::Rested => self.phase == ScenePhase::Resting,
        }
    }

    /// The fetch at tile `i`: its request, or the end.
    pub open spec fn at(self, i: int) -> SceneView {
        SceneView {
            next: i,
            phase: if i < self.tiles.len() {
                ScenePhase::Waiting
            } else {
                ScenePhase::Finished
            },
            ..self
        }
    }

    pub open spec fn ended(self) -> SceneView {
        SceneView { phase: ScenePhase::Finished, ..self }
    }

    /// The fetch after a reply. The first scene found is the one to show.
    pub open spec fn after(self, reply: SceneReply) -> SceneView {
        match reply {
            SceneReply::Started => SceneView { phase: ScenePhase::Searching, ..self },
            SceneReply::Searched(Ok(features)) => if features@.len() > 0
                && features@[0].usable_asset() is Some {
                SceneView { cog_url: features@[0].usable_asset()->0.href@, ..self }.at(0)
            } else {
                self.ended()
            },
            SceneReply::Searched(Err(_)) => self.ended(),
            SceneReply::Fetched(_) => SceneView { phase: ScenePhase::Resting, ..self },
            SceneReply::Rested => self.at(self.next + 1),
        }
    }

    /// What is sent for one tile: nothing where it could not be fetched.
    pub open spec fn tile_event(self, outcome: Result<GeoImage, String>) -> Option<SentinelEvent> {
        match outcome {
            Ok(image) => Some(
                SentinelEvent::TileReady {
                    z: self.z,
                    x: self.tiles[self.next].0,
                    y: self.tiles[self.next].1,
                    image,
                },
            ),
            Err(_) => None,
        }
    }

    /// `event` is what is sent to the UI upon a reply.
    pub open spec fn sends(self, reply: SceneReply, event: Option<SentinelEvent>) -> bool {
        match reply {
            SceneReply::Searched(Ok(features)) => if features@.len() == 0 {
                event is None
            } else if features@[0].usable_asset() is None {
                event matches Some(SentinelEvent::Error(e)) && e@ == "no usable asset in scene"@
            } else {
                event matches Some(e) && features@[0].announced_by(e)
            },
            SceneReply::Searched(Err(cause)) => event matches Some(SentinelEvent::Error(e)) && e@
                == cause@,
            SceneReply::Fetched(outcome) => event == self.tile_event(outcome),
            _ => event is None,
        }
    }

    /// What a fetch that waits asks for.
    pub open spec fn wants(self, step: SceneStep) -> bool {
        match self.phase {
            ScenePhase::Ready => false,
            ScenePhase::Searching => step is Search,
            ScenePhase::Waiting => step matches SceneStep::Get { z, x, y, url } && z == self.z && (
            x, y) == self.tiles[self.next] && url@ == tile_url(
                self.cog_url,
                z as nat,
                x as nat,
                y as nat,
            ),
            ScenePhase::Resting => step matches SceneStep::Rest { millis } && millis
                == TILE_PAUSE_MILLIS,
            ScenePhase::Finished => step is Finish,
        }
    }
}

impl View for SceneFetch {
    type V = SceneView;

    open spec fn view(&self) -> SceneView {
        SceneView {
            z: self.z,
            tiles: self.tiles@,
            cog_url: self.cog_url@,
            next: self.next as int,
            phase: self.phase,
        }
    }
}

impl SceneFetch {
    pub open spec fn wf(self) -> bool {
        &&& self.next <= self.tiles@.len()
        &&& self.phase == ScenePhase::Waiting || self.phase == ScenePhase::Resting ==> self.next
            < self.tiles@.len()
    }

    /// Takes note of a reply: what to send to the UI, and what to do next.
    pub fn step(&mut self, reply: SceneReply) -> (r: (Option<SentinelEvent>, SceneStep))
        requires
            old(self).wf(),
            old(self)@.accepts(reply),
        ensures
            final(self).wf(),
            final(self)@ == old(self)@.after(reply),
            old(self)@.sends(reply, r.0),
            final(self)@.wants(r.1),
            (reply matches SceneReply::Fetched(Ok(image)) ==> image.wf()) ==> (r.0 matches Some(e)
                ==> e.wf()),
    {
        match reply {
            SceneReply::Started => {
                self.phase = ScenePhase::Searching;
                (None, SceneStep::Search)
            },
            SceneReply::Searched(Err(cause)) => {
                self.phase = ScenePhase::Finished;
                (Some(SentinelEvent::Error(cause)), SceneStep::Finish)
            },
            SceneReply::Searched(Ok(features)) => {
                let mut features = features;
                if features.len() == 0 {
                    self.phase = ScenePhase::Finished;
                    return (None, SceneStep::Finish);
                }
                match scene_found(features.remove(0)) {
                    Ok((event, cog_url)) => {
                        self.cog_url = cog_url;
                        self.next = 0;
                        let step = self.open();
                        (Some(event), step)
                    },
                    Err(cause) => {
                        self.phase = ScenePhase::Finished;
                        (Some(SentinelEvent::Error(cause)), SceneStep::Finish)
                    },
                }
            },
            SceneReply::Fetched(outcome) => {
                let (x, y) = self.tiles[self.next];
                self.phase = ScenePhase::Resting;
                let event = match outcome {
                    Ok(image) => Some(SentinelEvent::TileReady { z: self.z, x, y, image }),
                    Err(_) => None,
                };
                (event, SceneStep::Rest { millis: TILE_PAUSE_MILLIS })
            },
            SceneReply::Rested => {
                assert(self.next < self.tiles.len());
                self.next = self.next + 1;
                let step = self.open();
                (None, step)
            },
        }
    }

    /// Goes to the next tile, or to the end.
    fn open(&mut self) -> (r: SceneStep)
        requires
            old(self).next <= old(self).tiles@.len(),
        ensures
            final(self).wf(),
            final(self)@ == old(self)@.at(old(self).next as int),
            final(self)@.wants(r),
    {
        if self.next < self.tiles.len() {
            self.phase = ScenePhase::Waiting;
            let (x, y) = self.tiles[self.next];
            SceneStep::Get { z: self.z, x, y, url: titiler_tile_url(self.cog_url.as_str(), self.z, x, y) }
        } else {
            self.phase = ScenePhase::Finished;
            SceneStep::Finish
        }
    }
}

/// The fetch after a number of tiles.
pub open spec fn progressed(fetch: SceneView, outcomes: Seq<Result<GeoImage, String>>) -> SceneView
    decreases outcomes.len(),
{
    if outcomes.len() == 0 {
        fetch
    } else {
        progressed(
            fetch.after(SceneReply::Fetched(outcomes[0])).after(SceneReply::Rested),
            outcomes.drop_first(),
        )
    }
}

proof fn lemma_progressed(fetch: SceneView, outcomes: Seq<Result<GeoImage, String>>)
    requires
        fetch.phase == ScenePhase::Waiting,
        0 <= fetch.next < fetch.tiles.len(),
        fetch.next + outcomes.len() <= fetch.tiles.len(),
    ensures
        progressed(fetch, outcomes) == fetch.at(fetch.next + outcomes.len()),
    decreases outcomes.len(),
{
    if outcomes.len() > 0 {
        let next = fetch.after(SceneReply::Fetched(outcomes[0])).after(SceneReply::Rested);
        assert(next == fetch.at(fetch.next + 1));
        if outcomes.len() > 1 {
            lemma_progressed(next, outcomes.drop_first());
        } else {
            assert(progressed(next, outcomes.drop_first()) == next);
        }
    } else {
        assert(fetch == fetch.at(fetch.next));
    }
}

/// A fetch that found a scene asks for each tile of the area once, in order,
/// whatever the tiles before came to, and is over after the last.
pub proof fn fetch_asks_for_every_tile(
    fetch: SceneView,
    features: Vec<StacFeature>,
    outcomes: Seq<Result<GeoImage, String>>,
)
    requires
        fetch.phase == ScenePhase::Searching,
        features@.len() > 0,
        features@[0].usable_asset() is Some,
        outcomes.len() <= fetch.tiles.len(),
    ensures
        ({
            let found = fetch.after(SceneReply::Searched(Ok(features)));
            let then = progressed(found, outcomes);
            &&& then.next == outcomes.len()
            &&& then.tiles == fetch.tiles
            &&& then.z == fetch.z
            &&& then.cog_url == features@[0].usable_asset()->0.href@
            &&& then.phase == if outcomes.len() < fetch.tiles.len() {
                ScenePhase::Waiting
            } else {
                ScenePhase::Finished
            }
        }),
{
    let found = fetch.after(SceneReply::Searched(Ok(features)));
    if fetch.tiles.len() > 0 {
        lemma_progressed(found, outcomes);
    } else {
        assert(progressed(found, outcomes) == found);
    }
}

/// What is sent from here on, when the tiles come out like this.
pub open spec fn sent(fetch: SceneView, outcomes: Seq<Result<GeoImage, String>>) -> Seq<
    SentinelEvent,
>
    decreases outcomes.len(),
{
    if outcomes.len() == 0 {
        Seq::empty()
    } else {
        let rest = sent(
            fetch.after(SceneReply::Fetched(outcomes[0])).after(SceneReply::Rested),
            outcomes.drop_first(),
        );
        match fetch.tile_event(outcomes[0]) {
            Some(event) => seq![event] + rest,
            None => rest,
        }
    }
}

/// One event for each tile that was fetched, in the order of the tiles.
pub open spec fn tile_events(
    z: u8,
    tiles: Seq<(u32, u32)>,
    outcomes: Seq<Result<GeoImage, String>>,
) -> Seq<SentinelEvent>
    decreases outcomes.len(),
{
    if outcomes.len() == 0 {
        Seq::empty()
    } else {
        let before = tile_events(z, tiles, outcomes.drop_last());
        let (x, y) = tiles[outcomes.len() - 1];
        match outcomes.last() {
            Ok(image) => before.push(SentinelEvent::TileReady { z, x, y, image }),
            Err(_) => before,
        }
    }
}

proof fn lemma_sent(fetch: SceneView, outcomes: Seq<Result<GeoImage, String>>)
    requires
        0 <= fetch.next,
        fetch.next + outcomes.len() <= fetch.tiles.len(),
    ensures
        sent(fetch, outcomes) == tile_events(fetch.z, fetch.tiles.skip(fetch.next), outcomes),
    decreases outcomes.len(),
{
    if outcomes.len() > 0 {
        let next = fetch.after(SceneReply::Fetched(outcomes[0])).after(SceneReply::Rested);
        lemma_sent(next, outcomes.drop_first());
        lemma_first_tile(fetch.z, fetch.tiles.skip(fetch.next), outcomes);
        assert(fetch.tiles.skip(fetch.next).skip(1) =~= fetch.tiles.skip(next.next));
        assert(fetch.tiles.skip(fetch.next)[0] == fetch.tiles[fetch.next]);
    }
}

/// The events of the tiles are that of the first one, if it was fetched, and
/// those of the others.
proof fn lemma_first_tile(
    z: u8,
    tiles: Seq<(u32, u32)>,
    outcomes: Seq<Result<GeoImage, String>>,
)
    requires
        0 < outcomes.len() <= tiles.len(),
    ensures
        tile_events(z, tiles, outcomes) == (match outcomes[0] {
            Ok(image) => seq![SentinelEvent::TileReady { z, x: tiles[0].0, y: tiles[0].1, image }],
            Err(_) => Seq::empty(),
        }) + tile_events(z, tiles.skip(1), outcomes.drop_first()),
    decreases outcomes.len(),
{
    let rest = outcomes.drop_first();
    let n = outcomes.len() as int;
    if n == 1 {
        assert(tile_events(z, tiles, outcomes.drop_last()) =~= Seq::<SentinelEvent>::empty());
        assert(tile_events(z, tiles.skip(1), rest) =~= Seq::<SentinelEvent>::empty());
    } else {
        lemma_first_tile(z, tiles, outcomes.drop_last());
        assert(outcomes.drop_last().drop_first() =~= rest.drop_last());
        assert(rest.last() == outcomes.last());
        assert(tiles.skip(1)[n - 2] == tiles[n - 1]);
    }
    assert(tile_events(z, tiles, outcomes) =~= (match outcomes[0] {
        Ok(image) => seq![SentinelEvent::TileReady { z, x: tiles[0].0, y: tiles[0].1, image }],
        Err(_) => Seq::empty(),
    }) + tile_events(z, tiles.skip(1), rest));
}

/// A fetch of these tiles that is to be started.
pub open spec fn ready_fetch(z: u8, tiles: Seq<(u32, u32)>) -> SceneView {
    SceneView { z, tiles, cog_url: Seq::empty(), next: 0, phase: ScenePhase::Ready }
}

/// `events` is everything that a fetch of these tiles sends, when the search
/// and the tiles come out like this. `found` is what it sends upon the search.
pub open spec fn reported(
    z: u8,
    tiles: Seq<(u32, u32)>,
    search: Result<Vec<StacFeature>, String>,
    outcomes: Seq<Result<GeoImage, String>>,
    found: Option<SentinelEvent>,
    events: Seq<SentinelEvent>,
) -> bool {
    let searching = ready_fetch(z, tiles).after(SceneReply::Started);
    let then = searching.after(SceneReply::Searched(search));
    &&& ready_fetch(z, tiles).sends(SceneReply::Started, None)
    &&& searching.sends(SceneReply::Searched(search), found)
    &&& events == (match found {
        Some(event) => seq![event],
        None => Seq::empty(),
    }) + (if then.phase == ScenePhase::Waiting {
        sent(then, outcomes)
    } else {
        Seq::empty()
    })
}

/// A fetch that finds a scene sends its announcement, then one event for each
/// tile that was fetched, in order, and nothing for the others. One that finds
/// none sends nothing, and one whose search failed, or whose scene cannot be
/// shown, sends the error and nothing else.
pub proof fn fetch_reports_the_scene_and_its_tiles(
    z: u8,
    tiles: Seq<(u32, u32)>,
    search: Result<Vec<StacFeature>, String>,
    outcomes: Seq<Result<GeoImage, String>>,
    found: Option<SentinelEvent>,
    events: Seq<SentinelEvent>,
)
    requires
        outcomes.len() == tiles.len(),
        reported(z, tiles, search, outcomes, found, events),
    ensures
        match search {
            Ok(features) => if features@.len() == 0 {
                events.len() == 0
            } else if features@[0].usable_asset() is None {
                &&& events.len() == 1
                &&& events[0] matches SentinelEvent::Error(e)
                &&& e@ == "no usable asset in scene"@
            } else {
                &&& events.len() > 0
                &&& features@[0].announced_by(events[0])
                &&& events.drop_first() == tile_events(z, tiles, outcomes)
            },
            Err(cause) => {
                &&& events.len() == 1
                &&& events[0] matches SentinelEvent::Error(e)
                &&& e@ == cause@
            },
        },
{
    let searching = ready_fetch(z, tiles).after(SceneReply::Started);
    let then = searching.after(SceneReply::Searched(search));
    if let Ok(features) = search {
        if features@.len() > 0 && features@[0].usable_asset() is Some {
            if tiles.len() > 0 {
                lemma_sent(then, outcomes);
                assert(tiles.skip(0) =~= tiles);
            } else {
                assert(tile_events(z, tiles, outcomes) =~= Seq::<SentinelEvent>::empty());
            }
            assert(events.drop_first() =~= tile_events(z, tiles, outcomes));
        }
    }
}

/// Whether a fetch is running, and what the last one was for.
pub struct SentinelClient {
    pub fetching: bool,
    pub last_viewport: Option<MapViewport>,
    /// When the last fetch started, in nanoseconds.
    pub last_fetch: Option<u64>,
}

impl SentinelClient {
    pub fn new() -> (r: SentinelClient)
        ensures
            !r.fetching,
            r.last_viewport is None,
            r.last_fetch is None,
    {
        SentinelClient { fetching: false, last_viewport: None, last_fetch: None }
    }

    pub fn is_fetching(&self) -> (r: bool)
        ensures
            r == self.fetching,
    {
        self.fetching
    }

    /// No fetch is running, none started in the last five seconds, and the
    /// last one was for another part of the map.
    pub open spec fn due(self, close_to_last: bool, now: u64) -> bool {
        &&& !self.fetching
        &&& self.last_fetch matches Some(t) ==> elapsed(t, now) / 1_000_000_000 >= REFRESH_SECS
        &&& self.last_viewport is Some ==> !close_to_last
    }

    /// Returns true when the scene for the current viewport is to be fetched.
    /// `close_to_last` says whether the viewport is close to the last one that
    /// was fetched for, if there was one.
    pub fn needs_refresh(&self, close_to_last: bool, now: u64) -> (r: bool)
        ensures
            r == self.due(close_to_last, now),
            r <==> !self.fetching && (self.last_fetch matches Some(t) ==> now - t >= 5_000_000_000)
                && (self.last_viewport is None || !close_to_last),
    {
        if self.fetching {
            return false;
        }
        if let Some(t) = self.last_fetch {
            if nanos_since(t, now) / 1_000_000_000 < REFRESH_SECS {
                return false;
            }
        }
        match self.last_viewport {
            None => true,
            Some(_) => !close_to_last,
        }
    }

    /// Starts to search for a scene and to fetch its tiles at zoom `z` between
    /// two corners.
    pub fn fetch_scene(&mut self, z: u8, nw: (u32, u32), se: (u32, u32), now: u64) -> (r: SceneFetch)
        requires
            z < 32,
        ensures
            final(self).fetching,
            final(self).last_fetch == Some(now),
            final(self).last_viewport == old(self).last_viewport,
            r.wf(),
            r@ == ready_fetch(z, area_tiles(z, nw, se)),
    {
        self.fetching = true;
        self.last_fetch = Some(now);
        SceneFetch {
            z,
            tiles: tiles_for_bounds(z, nw, se),
            cog_url: String::new(),
            next: 0,
            phase: ScenePhase::Ready,
        }
    }

    /// Notes that the fetch for `viewport` ended, well or not.
    pub fn finish(&mut self, viewport: MapViewport)
        ensures
            !final(self).fetching,
            final(self).last_viewport == Some(viewport),
            final(self).last_fetch == old(self).last_fetch,
    {
        self.fetching = false;
        self.last_viewport = Some(viewport);
    }
}

/// While a fetch runs, and for five seconds after it started, no other is due.
pub proof fn fetches_do_not_overlap(client: SentinelClient, started: u64, close: bool, now: u64)
    requires
        client.last_fetch == Some(started),
        client.fetching || now < started || now - started < 5_000_000_000,
    ensures
        !client.due(close, now),
{
}

/// A letter, a digit, `-`, `_`, `.` or `~` stands for itself, and any other byte
/// is `%` and the two hexadecimal digits of its value, in upper case. Bytes are
/// encoded one after the other.
pub proof fn bytes_are_encoded_one_by_one(b: u8, bytes: Seq<u8>)
    ensures
        percent_encoded(Seq::empty()) == Seq::<char>::empty(),
        ({
            let c = b as char;
            let digits = "0123456789ABCDEF"@;
            let rest = percent_encoded(bytes);
            let plain = 'a' <= c <= 'z' || 'A' <= c <= 'Z' || '0' <= c <= '9' || c == '-' || c
                == '_' || c == '.' || c == '~';
            &&& plain ==> percent_encoded(seq![b] + bytes) == seq![c] + rest
            &&& !plain ==> percent_encoded(seq![b] + bytes) == seq![
                '%',
                digits[b as int / 16],
                digits[b as int % 16],
            ] + rest
        }),
{
    reveal_strlit("0123456789ABCDEF");
    assert((seq![b] + bytes).drop_first() =~= bytes);
}

/// Read as the server reads it, the URL of a tile gives back the tile and the
/// image: after the server's address the digits up to the first slash are the
/// zoom, those up to the next are the column, and those up to `.png` are the
/// row. What follows is the encoded address and the way to draw it.
pub proof fn tile_url_reads_back(
    cog_url: Seq<char>,
    z: nat,
    x: nat,
    y: nat,
    zoom: Seq<char>,
    column: Seq<char>,
    row: Seq<char>,
    rest: Seq<char>,
)
    requires
        all_digits(zoom),
        all_digits(column),
        all_digits(row),
        tile_url(cog_url, z, x, y) == "https://titiler.xyz/cog/tiles/WebMercatorQuad/"@ + zoom
            + "/"@ + column + "/"@ + row + "."@ + rest,
    ensures
        decimal_value(zoom) == z,
        decimal_value(column) == x,
        decimal_value(row) == y,
        rest == "png?url="@ + percent_encoded(encode_utf8(cog_url))
            + "&bidx=1&bidx=2&bidx=3&rescale=0,3000"@,
{
    tile_url_is_its_parts(cog_url, z, x, y);
    reveal_strlit("/");
    reveal_strlit(".");
    decimal_round_trips(z);
    decimal_round_trips(x);
    decimal_round_trips(y);
    let base = "https://titiler.xyz/cog/tiles/WebMercatorQuad/"@;
    let tail = "png?url="@ + percent_encoded(encode_utf8(cog_url))
        + "&bidx=1&bidx=2&bidx=3&rescale=0,3000"@;
    lemma_after_base(base, decimal(z), "/"@, decimal(x), decimal(y), "."@, tail);
    lemma_after_base(base, zoom, "/"@, column, row, "."@, rest);
    number_is_readable(
        decimal(z),
        decimal(x) + "/"@ + (decimal(y) + "."@ + tail),
        zoom,
        column + "/"@ + (row + "."@ + rest),
        "/"@,
    );
    number_is_readable(
        decimal(x),
        decimal(y) + "."@ + tail,
        column,
        row + "."@ + rest,
        "/"@,
    );
    number_is_readable(decimal(y), tail, row, rest, "."@);
}

proof fn lemma_after_base(
    base: Seq<char>,
    z: Seq<char>,
    sep: Seq<char>,
    x: Seq<char>,
    y: Seq<char>,
    dot: Seq<char>,
    tail: Seq<char>,
)
    ensures
        (base + z + sep + x + sep + y + dot + tail).skip(base.len() as int) == z + sep + (x + sep + (
        y + dot + tail)),
{
    assert((base + z + sep + x + sep + y + dot + tail).skip(base.len() as int) =~= z + sep + (x
        + sep + (y + dot + tail)));
}

/// The URL of a tile is the server's address, the zoom, the column and the row,
/// and the encoded address of the image.
pub proof fn tile_url_is_its_parts(cog_url: Seq<char>, z: nat, x: nat, y: nat)
    ensures
        tile_url(cog_url, z, x, y) == "https://titiler.xyz/cog/tiles/WebMercatorQuad/"@ + decimal(z)
            + "/"@ + decimal(x) + "/"@ + decimal(y) + "."@ + ("png?url="@ + percent_encoded(
            encode_utf8(cog_url),
        ) + "&bidx=1&bidx=2&bidx=3&rescale=0,3000"@),
{
    reveal_strlit("https://titiler.xyz/cog/tiles/WebMercatorQuad/");
    reveal_strlit("https://titiler.xyz");
    reveal_strlit("/cog/tiles/WebMercatorQuad/");
    lemma_mark();
    assert("https://titiler.xyz/cog/tiles/WebMercatorQuad/"@ =~= "https://titiler.xyz"@
        + "/cog/tiles/WebMercatorQuad/"@);
    lemma_join(
        "https://titiler.xyz/cog/tiles/WebMercatorQuad/"@ + decimal(z) + "/"@ + decimal(x) + "/"@
            + decimal(y),
        "."@,
        "png?url="@,
        percent_encoded(encode_utf8(cog_url)),
        "&bidx=1&bidx=2&bidx=3&rescale=0,3000"@,
    );
}

proof fn lemma_mark()
    ensures
        ".png?url="@ == "."@ + "png?url="@,
{
    assert(".png?url="@ =~= "."@ + "png?url="@) by {
        reveal_strlit(".");
        reveal_strlit("png?url=");
        reveal_strlit(".png?url=")
    }
}

proof fn lemma_join(head: Seq<char>, a: Seq<char>, b: Seq<char>, e: Seq<char>, tail: Seq<char>)
    ensures
        head + (a + b) + e + tail == head + a + (b + e + tail),
{
    assert(head + (a + b) + e + tail =~= head + a + (b + e + tail));
}

/// The tiles of an area are those of the grid from the column and the row of its
/// north-west corner to those of its south-east corner, each once. A corner
/// beyond the grid counts as its last column or row.
pub proof fn area_reaches_from_corner_to_corner(
    z: u8,
    nw: (u32, u32),
    se: (u32, u32),
    x: u32,
    y: u32,
)
    requires
        z < 32,
    ensures
        area_tiles(z, nw, se).contains((x, y)) <==> {
            let n = pow2(z as nat) as int;
            &&& 0 <= x < n && 0 <= y < n
            &&& (nw.0 <= x || x == n - 1) && x <= se.0
            &&& (nw.1 <= y || y == n - 1) && y <= se.1
        },
        area_tiles(z, nw, se).no_duplicates(),
{
    lemma_u32_pow2_no_overflow(z as nat);
    lemma_pow2_pos(z as nat);
    block_holds_each_tile_once(
        in_grid(z, nw.0),
        in_grid(z, nw.1),
        in_grid(z, se.0),
        in_grid(z, se.1),
        x,
        y,
    );
}

/// The tiles of an area come column by column, and within a column row by row.
pub proof fn area_tiles_go_column_by_column(z: u8, nw: (u32, u32), se: (u32, u32))
    requires
        z < 32,
    ensures
        forall|i: int, j: int|
            0 <= i < j < area_tiles(z, nw, se).len() ==> {
                let (a, b) = (
                    #[trigger] area_tiles(z, nw, se)[i],
                    #[trigger] area_tiles(z, nw, se)[j],
                );
                a.0 < b.0 || (a.0 == b.0 && a.1 < b.1)
            },
{
    lemma_u32_pow2_no_overflow(z as nat);
    lemma_pow2_pos(z as nat);
    let (x0, y0, x1, y1) = (
        in_grid(z, nw.0),
        in_grid(z, nw.1),
        in_grid(z, se.0),
        in_grid(z, se.1),
    );
    let block = tile_block(x0, y0, x1, y1);
    let (cols, rows) = (span(x0 as int, x1 as int) as int, span(y0 as int, y1 as int) as int);
    assert forall|i: int, j: int| 0 <= i < j < block.len() implies {
        let (a, b) = (#[trigger] block[i], #[trigger] block[j]);
        a.0 < b.0 || (a.0 == b.0 && a.1 < b.1)
    } by {
        lemma_grid_index(i, cols, rows);
        lemma_grid_index(j, cols, rows);
        let (p, q) = (i / rows, j / rows);
        if p > q {
            assert(p * rows >= q * rows + rows) by (nonlinear_arith)
                requires
                    p >= q + 1,
                    rows >= 0,
            ;
        }
    }
}

/// A scene is shown by its true-colour image, and by its red band where it has
/// none.
pub proof fn true_colour_comes_first(feature: StacFeature)
    ensures
        feature.assets.visual is Some ==> feature.usable_asset() == feature.assets.visual,
        feature.assets.visual is None ==> feature.usable_asset() == feature.assets.b04,
{
}

/// What announces a scene carries its name, its sides in the order west, south,
/// east, north, its cloud cover or 0, its time or `unknown`, and the address of
/// the file to show.
pub proof fn announcements_describe_the_scene(feature: StacFeature, event: SentinelEvent)
    requires
        feature.announced_by(event),
    ensures
        feature.usable_asset() is Some,
        event is SceneFound,
        event->scene_id@ == feature.id@,
        event->bounds.min_lon == feature.bbox@[0],
        event->bounds.min_lat == feature.bbox@[1],
        event->bounds.max_lon == feature.bbox@[2],
        event->bounds.max_lat == feature.bbox@[3],
        feature.properties.cloud_cover matches Some(c) ==> event->cloud_cover == c,
        feature.properties.cloud_cover is None ==> event->cloud_cover.bits == 0,
        feature.properties.datetime matches Some(d) ==> event->datetime@ == d@,
        feature.properties.datetime is None ==> event->datetime@ == "unknown"@,
        event->cog_url@ == feature.usable_asset()->0.href@,
{
}

/// A scene fetch takes the start, then the search, and from there a tile and a
/// pause in turn.
pub proof fn replies_come_in_turn(
    fetch: SceneView,
    search: Result<Vec<StacFeature>, String>,
    outcome: Result<GeoImage, String>,
)
    ensures
        fetch.accepts(SceneReply::Started) <==> fetch.phase == ScenePhase::Ready,
        fetch.accepts(SceneReply::Searched(search)) <==> fetch.phase == ScenePhase::Searching,
        fetch.accepts(SceneReply::Fetched(outcome)) <==> fetch.phase == ScenePhase::Waiting,
        fetch.accepts(SceneReply::Rested) <==> fetch.phase == ScenePhase::Resting,
{
}

/// When it is started, a scene fetch searches. Upon scenes it goes to the first
/// tile, with the file of the first scene; upon anything else it is over. A tile
/// that came or failed is followed by a pause, and the pause by the next tile,
/// until none is left.
pub proof fn scene_fetch_goes_on(
    fetch: SceneView,
    features: Vec<StacFeature>,
    reason: String,
    outcome: Result<GeoImage, String>,
)
    ensures
        fetch.after(SceneReply::Started) == (SceneView { phase: ScenePhase::Searching, ..fetch }),
        fetch.after(SceneReply::Searched(Err(reason))) == (SceneView {
            phase: ScenePhase::Finished,
            ..fetch
        }),
        features@.len() == 0 || features@[0].usable_asset() is None ==> fetch.after(
            SceneReply::Searched(Ok(features)),
        ) == (SceneView { phase: ScenePhase::Finished, ..fetch }),
        features@.len() > 0 && features@[0].usable_asset() is Some ==> fetch.after(
            SceneReply::Searched(Ok(features)),
        ) == (SceneView {
            cog_url: features@[0].usable_asset()->0.href@,
            next: 0,
            phase: if fetch.tiles.len() > 0 {
                ScenePhase::Waiting
            } else {
                ScenePhase::Finished
            },
            ..fetch
        }),
        fetch.after(SceneReply::Fetched(outcome)) == (SceneView {
            phase: ScenePhase::Resting,
            ..fetch
        }),
        fetch.after(SceneReply::Rested) == (SceneView {
            next: fetch.next + 1,
            phase: if fetch.next + 1 < fetch.tiles.len() {
                ScenePhase::Waiting
            } else {
                ScenePhase::Finished
            },
            ..fetch
        }),
{
}

/// A scene fetch sends the announcement of the first scene, an error where it
/// cannot be shown or the search failed, and each tile that came under its zoom,
/// its column and its row. For a tile that failed, and upon a start or a pause,
/// it sends nothing.
pub proof fn scene_fetch_sends_what_came(
    fetch: SceneView,
    reply: SceneReply,
    event: Option<SentinelEvent>,
)
    requires
        fetch.sends(reply, event),
    ensures
        reply is Started || reply is Rested ==> event is None,
        reply matches SceneReply::Fetched(Err(_)) ==> event is None,
        reply matches SceneReply::Fetched(Ok(image)) ==> event == Some(
            SentinelEvent::TileReady {
                z: fetch.z,
                x: fetch.tiles[fetch.next].0,
                y: fetch.tiles[fetch.next].1,
                image,
            },
        ),
        reply matches SceneReply::Searched(Err(reason)) ==> {
            &&& event matches Some(SentinelEvent::Error(e))
            &&& e@ == reason@
        },
        reply matches SceneReply::Searched(Ok(features)) ==> {
            &&& features@.len() == 0 ==> event is None
            &&& features@.len() > 0 && features@[0].usable_asset() is None ==> {
                &&& event matches Some(SentinelEvent::Error(e))
                &&& e@ == "no usable asset in scene"@
            }
            &&& features@.len() > 0 && features@[0].usable_asset() is Some ==> {
                &&& event matches Some(e)
                &&& features@[0].announced_by(e)
            }
        },
{
}

/// A scene fetch that waits asks for the tile it is at, under the URL of this
/// tile of its image. It pauses for 30 milliseconds.
pub proof fn scene_fetch_asks_for_the_tile_it_is_at(fetch: SceneView, step: SceneStep)
    requires
        fetch.wants(step),
    ensures
        fetch.phase != ScenePhase::Ready,
        fetch.phase == ScenePhase::Searching ==> step is Search,
        fetch.phase == ScenePhase::Waiting ==> {
            &&& step matches SceneStep::Get { z, x, y, url }
            &&& z == fetch.z
            &&& x == fetch.tiles[fetch.next].0
            &&& y == fetch.tiles[fetch.next].1
            &&& url@ == tile_url(
                fetch.cog_url,
                fetch.z as nat,
                fetch.tiles[fetch.next].0 as nat,
                fetch.tiles[fetch.next].1 as nat,
            )
        },
        fetch.phase == ScenePhase::Resting ==> {
            &&& step matches SceneStep::Rest { millis }
            &&& millis == 30
        },
        fetch.phase == ScenePhase::Finished ==> step is Finish,
{
}

/// A scene fetch that was just made has searched nothing and is at its first
/// tile.
pub proof fn scene_fetches_start_at_the_first_tile(z: u8, tiles: Seq<(u32, u32)>)
    ensures
        ready_fetch(z, tiles).z == z,
        ready_fetch(z, tiles).tiles == tiles,
        ready_fetch(z, tiles).next == 0,
        ready_fetch(z, tiles).phase == ScenePhase::Ready,
        ready_fetch(z, tiles).cog_url.len() == 0,
{
}

/// A scene fetch can be stepped if it is at one of its tiles, or past the last
/// where nothing is awaited.
pub proof fn scene_fetches_stay_at_their_tiles(fetch: SceneFetch)
    ensures
        fetch.wf() <==> fetch.next <= fetch.tiles@.len() && (fetch.phase == ScenePhase::Waiting
            || fetch.phase == ScenePhase::Resting ==> fetch.next < fetch.tiles@.len()),
        fetch@.z == fetch.z,
        fetch@.tiles == fetch.tiles@,
        fetch@.cog_url == fetch.cog_url@,
        fetch@.next == fetch.next,
        fetch@.phase == fetch.phase,
{
}

/// A scene is to be fetched exactly if no fetch is running, none started in the
/// last five seconds, and the map was fetched for nowhere close.
pub proof fn scene_is_due_when_the_map_moved(client: SentinelClient, close: bool, now: u64)
    ensures
        client.fetching ==> !client.due(close, now),
        client.last_fetch is Some && now - client.last_fetch->0 < 5_000_000_000 ==> !client.due(
            close,
            now,
        ),
        client.last_viewport is Some && close ==> !client.due(close, now),
        !client.fetching && (client.last_fetch is None || now - client.last_fetch->0
            >= 5_000_000_000) && (client.last_viewport is None || !close) ==> client.due(
            close,
            now,
        ),
{
}

/// A tile that is ready is whole if its picture has all its pixels, and every
/// other event is.
pub proof fn whole_tiles(z: u8, x: u32, y: u32, image: GeoImage, event: SentinelEvent)
    ensures
        (SentinelEvent::TileReady { z, x, y, image }).wf() <==> image.wf(),
        !(event is TileReady) ==> event.wf(),
{
}

} // verus!
