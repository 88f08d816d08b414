use satellite_viewer::binary::Binary64;
use satellite_viewer::data::{place_raster, GeoBounds, Raster};
use satellite_viewer::http::{http_error, transport_error, ureq_err, HttpFailure};
use satellite_viewer::text::{push_decimal, push_signed_decimal};
use satellite_viewer::tiles::{TileId, TileMap, TileSet};

fn bounds(a: f64, c: f64, d: f64, e: f64) -> GeoBounds {
    GeoBounds::new(
        Binary64 { bits: a.to_bits() },
        Binary64 { bits: c.to_bits() },
        Binary64 { bits: d.to_bits() },
        Binary64 { bits: e.to_bits() },
    )
}

#[test]
fn bounds_keep_their_sides() {
    let a = bounds(-10.0, -5.0, 10.0, 5.0);
    assert_eq!(f64::from_bits(a.min_lon.bits), -10.0);
    assert_eq!(f64::from_bits(a.min_lat.bits), -5.0);
    assert_eq!(f64::from_bits(a.max_lon.bits), 10.0);
    assert_eq!(f64::from_bits(a.max_lat.bits), 5.0);
    assert!(a == bounds(-10.0, -5.0, 10.0, 5.0));
    assert!(a != bounds(-10.0, -5.0, 10.0, 5.5));
    assert!(bounds(0.0, 0.0, 1.0, 1.0) == bounds(-0.0, 0.0, 1.0, 1.0));
    assert!(bounds(f64::NAN, 0.0, 1.0, 1.0) != bounds(f64::NAN, 0.0, 1.0, 1.0));
}

#[test]
fn overlapping_bounds_intersect() {
    let a = bounds(-10.0, -5.0, 10.0, 5.0);
    let inside = bounds(-1.0, -1.0, 1.0, 1.0);
    let corner = bounds(9.0, 4.0, 20.0, 20.0);
    let beside = bounds(11.0, -5.0, 12.0, 5.0);
    let above = bounds(-1.0, 6.0, 1.0, 7.0);
    assert!(a.intersects(&inside) && inside.intersects(&a));
    assert!(a.intersects(&corner) && corner.intersects(&a));
    assert!(!a.intersects(&beside) && !beside.intersects(&a));
    assert!(!a.intersects(&above) && !above.intersects(&a));
}

#[test]
fn touching_bounds_do_not_intersect() {
    let a = bounds(0.0, 0.0, 1.0, 1.0);
    assert!(!a.intersects(&bounds(1.0, 0.0, 2.0, 1.0)));
    assert!(!a.intersects(&bounds(0.0, 1.0, 1.0, 2.0)));
    assert!(!a.intersects(&bounds(f64::NAN, 0.0, 2.0, 2.0)));
}

#[test]
fn union_covers_both() {
    let a = bounds(-10.0, -5.0, 10.0, 5.0);
    let c = bounds(5.0, -20.0, 30.0, 1.0);
    assert!(a.union(&c) == bounds(-10.0, -20.0, 30.0, 5.0));
    assert!(c.union(&a) == bounds(-10.0, -20.0, 30.0, 5.0));
    assert!(a.union(&a) == a);
    let far = bounds(29.0, -19.0, 29.5, -18.0);
    assert!(c.intersects(&far) && a.union(&c).intersects(&far));
}

#[test]
fn union_passes_over_what_is_not_a_number() {
    let a = bounds(f64::NAN, 1.0, f64::NAN, 2.0);
    let c = bounds(3.0, f64::NAN, 4.0, f64::NAN);
    assert!(a.union(&c) == bounds(3.0, 1.0, 4.0, 2.0));
}

#[test]
fn raster_is_placed_on_the_map() {
    let at = bounds(1.0, 2.0, 3.0, 4.0);
    let picture = Raster { pixels: vec![1, 2, 3, 4], width: 1, height: 1 };
    let image = place_raster(Ok(picture), at, "why").unwrap();
    let copy = image.clone();
    assert_eq!((&copy.pixels, copy.width, copy.height), (&image.pixels, 1, 1));
    assert!(copy.bounds == at);
    assert_eq!((image.pixels, image.width, image.height), (vec![1, 2, 3, 4], 1, 1));
    assert!(image.bounds == at);
    assert_eq!(place_raster(Err("deep down".to_string()), at, "why").err(), Some("why".to_string()));
}

#[test]
fn http_failures_are_reported() {
    assert_eq!(http_error(404), "HTTP 404");
    assert_eq!(http_error(0), "HTTP 0");
    assert_eq!(http_error(65535), "HTTP 65535");
    assert_eq!(transport_error("connection refused"), "transport: connection refused");
    assert_eq!(ureq_err(HttpFailure::Status(500)), "HTTP 500");
    assert_eq!(ureq_err(HttpFailure::Transport("eof".to_string())), "transport: eof");
}

#[test]
fn numbers_are_written_in_decimal() {
    let mut s = String::from("n=");
    push_decimal(&mut s, 0);
    s.push(' ');
    push_decimal(&mut s, 1200);
    s.push(' ');
    push_decimal(&mut s, u64::MAX);
    s.push(' ');
    push_signed_decimal(&mut s, -305);
    s.push(' ');
    push_signed_decimal(&mut s, i64::MIN);
    s.push(' ');
    push_signed_decimal(&mut s, 7);
    assert_eq!(s, "n=0 1200 18446744073709551615 -305 -9223372036854775808 7");
}

#[test]
fn tile_map_tells_tiles_apart() {
    let mut map: TileMap<u32> = TileMap::new();
    let ids = [
        TileId { z: 0, x: 0, y: 0 },
        TileId { z: 1, x: 0, y: 0 },
        TileId { z: 0, x: 1, y: 0 },
        TileId { z: 0, x: 0, y: 1 },
        TileId { z: 255, x: u32::MAX, y: u32::MAX },
    ];
    for i in 0..ids.len() {
        assert!(map.get(&ids[i]).is_none());
        map.insert(ids[i], i as u32);
    }
    for i in 0..ids.len() {
        assert_eq!(map.get(&ids[i]), Some(&(i as u32)));
    }
    map.insert(ids[2], 9);
    map.remove(&ids[0]);
    assert_eq!(map.get(&ids[2]), Some(&9));
    assert!(!map.contains(&ids[0]) && map.contains(&ids[4]));
    let mut found = map.ids();
    found.sort_by_key(|id| (id.z, id.x, id.y));
    assert_eq!(found, vec![ids[3], ids[2], ids[1], ids[4]]);
    map.clear();
    assert!(map.ids().is_empty());
}

#[test]
fn tile_set_tells_tiles_apart() {
    let a = TileId { z: 3, x: 4, y: 5 };
    let b = TileId { z: 3, x: 5, y: 4 };
    let mut set = TileSet::new();
    set.insert(a);
    assert!(set.contains(&a) && !set.contains(&b));
    set.insert(b);
    set.remove(&a);
    assert!(!set.contains(&a) && set.contains(&b));
}
