use satellite_viewer::binary::Binary64;
use satellite_viewer::data::sentinel::{
    clamp_to_grid, decode_tile, percent_encode, received_search, received_tile, scene_found,
    stac_search_body, tiles_for_bounds, titiler_tile_url, SceneReply, SceneStep, SentinelClient, SentinelEvent, StacAsset, StacAssets,
    StacFeature, StacProperties,
};
use satellite_viewer::data::{GeoBounds, GeoImage};
use satellite_viewer::http::HttpFailure;
use satellite_viewer::ui::map_view::MapViewport;

const SECOND: u64 = 1_000_000_000;

fn b(x: f64) -> Binary64 {
    Binary64 { bits: x.to_bits() }
}

fn bounds() -> GeoBounds {
    GeoBounds::new(b(1.0), b(2.0), b(3.0), b(4.0))
}

fn viewport() -> MapViewport {
    MapViewport { center_lon: b(2.0), center_lat: b(3.0), zoom: b(4.0), bounds: bounds() }
}

fn asset(href: &str) -> Option<StacAsset> {
    Some(StacAsset { href: href.to_string() })
}

fn feature(visual: Option<StacAsset>, b04: Option<StacAsset>) -> StacFeature {
    StacFeature {
        id: "S2A".to_string(),
        properties: StacProperties {
            cloud_cover: Some(b(12.5)),
            datetime: Some("2024-03-15T10:00:00Z".to_string()),
        },
        bbox: [b(1.0), b(2.0), b(3.0), b(4.0)],
        assets: StacAssets { visual, b04 },
    }
}

fn tile() -> GeoImage {
    GeoImage { bounds: bounds(), pixels: vec![9, 9, 9, 255], width: 1, height: 1 }
}

#[test]
fn percent_encode_keeps_unreserved() {
    assert_eq!(percent_encode("aZ09-_.~"), "aZ09-_.~");
    assert_eq!(percent_encode(""), "");
}

#[test]
fn percent_encode_writes_other_bytes_in_hex() {
    assert_eq!(percent_encode("a b&c=d/%"), "a%20b%26c%3Dd%2F%25");
    assert_eq!(percent_encode("é\u{1F30D}"), "%C3%A9%F0%9F%8C%8D");
    assert_eq!(percent_encode("\u{0}\n\u{7f}"), "%00%0A%7F");
}

#[test]
fn percent_encode_tells_texts_apart() {
    let texts = ["a b", "a%20b", "a+b", "ab", "A b"];
    for s in texts {
        for t in texts {
            assert_eq!(percent_encode(s) == percent_encode(t), s == t);
        }
    }
}

#[test]
fn tile_urls_name_the_tile_and_the_image() {
    assert_eq!(
        titiler_tile_url("s3://b/TCI.tif", 12, 1205, 1539),
        "https://titiler.xyz/cog/tiles/WebMercatorQuad/12/1205/1539.png\
         ?url=s3%3A%2F%2Fb%2FTCI.tif&bidx=1&bidx=2&bidx=3&rescale=0,3000"
    );
}

#[test]
fn the_search_asks_for_the_least_cloudy_scenes() {
    let body = stac_search_body("-98.5", "1.0", "null", "4.25");
    let value: serde_json::Value = serde_json::from_str(&body).unwrap();
    assert_eq!(value["collections"][0], "sentinel-2-l2a");
    assert_eq!(value["bbox"][0], -98.5);
    assert_eq!(value["bbox"][1], 1.0);
    assert!(value["bbox"][2].is_null());
    assert_eq!(value["bbox"][3], 4.25);
    assert_eq!(value["limit"], 10);
    assert_eq!(value["query"]["eo:cloud_cover"]["lt"], 30);
    assert_eq!(value["sortby"][0]["field"], "properties.eo:cloud_cover");
    assert_eq!(value["sortby"][0]["direction"], "asc");
    assert_eq!(value.as_object().unwrap().len(), 5);
    assert_eq!(serde_json::to_string(&value).unwrap(), body);
}

#[test]
fn corners_are_brought_into_the_grid() {
    assert_eq!(clamp_to_grid(0, 5, 0), (0, 0));
    assert_eq!(clamp_to_grid(3, 7, 8), (7, 7));
    assert_eq!(clamp_to_grid(31, u32::MAX, 1), ((1u32 << 31) - 1, 1));
}

#[test]
fn tiles_are_listed_column_by_column() {
    assert_eq!(
        tiles_for_bounds(3, (1, 2), (2, 4)),
        vec![(1, 2), (1, 3), (1, 4), (2, 2), (2, 3), (2, 4)]
    );
    assert_eq!(tiles_for_bounds(1, (0, 0), (9, 9)), vec![(0, 0), (0, 1), (1, 0), (1, 1)]);
    assert_eq!(tiles_for_bounds(0, (0, 0), (0, 0)), vec![(0, 0)]);
    assert!(tiles_for_bounds(3, (2, 0), (1, 5)).is_empty());
    assert!(tiles_for_bounds(3, (0, 5), (5, 4)).is_empty());
}

#[test]
fn tiles_are_decoded_to_rgba() {
    let picture = image::RgbaImage::from_raw(1, 2, vec![1, 2, 3, 4, 5, 6, 7, 8]).unwrap();
    let mut out = std::io::Cursor::new(Vec::new());
    picture.write_to(&mut out, image::ImageFormat::Png).unwrap();
    let image = decode_tile(&out.into_inner(), bounds()).unwrap();
    assert_eq!((image.width, image.height), (1, 2));
    assert_eq!(image.pixels, vec![1, 2, 3, 4, 5, 6, 7, 8]);
    assert!(image.bounds == bounds());
    assert_eq!(decode_tile(b"??", bounds()).err(), Some("decoding tile PNG".to_string()));
}

#[test]
fn each_failure_of_a_tile_is_reported() {
    let error = |reply| received_tile(reply, bounds()).err();
    assert_eq!(error(Err(HttpFailure::Status(500))), Some("HTTP 500".to_string()));
    assert_eq!(
        error(Err(HttpFailure::Transport("no route".to_string()))),
        Some("transport: no route".to_string())
    );
    assert_eq!(error(Ok(None)), Some("tile body".to_string()));
    assert_eq!(error(Ok(Some(vec![1, 2]))), Some("decoding tile PNG".to_string()));
    let picture = image::RgbaImage::from_raw(1, 1, vec![4, 3, 2, 1]).unwrap();
    let mut out = std::io::Cursor::new(Vec::new());
    picture.write_to(&mut out, image::ImageFormat::Png).unwrap();
    let image = received_tile(Ok(Some(out.into_inner())), bounds()).unwrap();
    assert_eq!(image.pixels, vec![4, 3, 2, 1]);
}

#[test]
fn each_failure_of_a_search_is_reported() {
    let error = |reply| received_search(reply).err();
    assert_eq!(error(Err(HttpFailure::Status(429))), Some("HTTP 429".to_string()));
    assert_eq!(
        error(Err(HttpFailure::Transport("gone".to_string()))),
        Some("transport: gone".to_string())
    );
    assert_eq!(error(Ok(None)), Some("parsing STAC response".to_string()));
    let features = received_search(Ok(Some(vec![feature(None, None)]))).ok().unwrap();
    assert_eq!(features.len(), 1);
    assert_eq!(features[0].id, "S2A");
}

#[test]
fn a_scene_is_announced() {
    match scene_found(feature(asset("visual.tif"), asset("b04.tif"))) {
        Ok((SentinelEvent::SceneFound { scene_id, bounds: at, cloud_cover, datetime, cog_url }, url)) => {
            assert_eq!(scene_id, "S2A");
            assert!(at == bounds());
            assert_eq!(f64::from_bits(cloud_cover.bits), 12.5);
            assert_eq!(datetime, "2024-03-15T10:00:00Z");
            assert_eq!((cog_url.as_str(), url.as_str()), ("visual.tif", "visual.tif"));
        }
        _ => panic!("the scene is announced"),
    }
}

#[test]
fn a_scene_falls_back_to_the_red_band() {
    let mut bare = feature(None, asset("b04.tif"));
    bare.properties = StacProperties { cloud_cover: None, datetime: None };
    match scene_found(bare) {
        Ok((SentinelEvent::SceneFound { cloud_cover, datetime, cog_url, .. }, _)) => {
            assert_eq!(f64::from_bits(cloud_cover.bits), 0.0);
            assert_eq!(datetime, "unknown");
            assert_eq!(cog_url, "b04.tif");
        }
        _ => panic!("the scene is announced"),
    }
}

#[test]
fn a_scene_without_files_is_an_error() {
    assert_eq!(scene_found(feature(None, None)).err(), Some("no usable asset in scene".to_string()));
}

#[test]
fn the_scene_is_refreshed_when_the_map_moves() {
    let mut client = SentinelClient::new();
    assert!(client.needs_refresh(true, 0));
    let fetch = client.fetch_scene(2, (1, 1), (2, 1), 10 * SECOND);
    assert_eq!((fetch.z, fetch.tiles), (2, vec![(1, 1), (2, 1)]));
    assert!(client.is_fetching() && !client.needs_refresh(false, 100 * SECOND));
    client.finish(viewport());
    assert!(!client.is_fetching() && client.last_viewport.is_some());
    assert!(!client.needs_refresh(false, 15 * SECOND - 1));
    assert!(client.needs_refresh(false, 15 * SECOND));
    assert!(!client.needs_refresh(true, 15 * SECOND));
}

#[test]
fn a_scene_fetch_asks_for_each_tile() {
    let mut client = SentinelClient::new();
    let mut fetch = client.fetch_scene(2, (1, 1), (2, 1), 0);
    let (event, step) = fetch.step(SceneReply::Started);
    assert!(event.is_none() && matches!(step, SceneStep::Search));
    let found = vec![feature(asset("v.tif"), None), feature(asset("other.tif"), None)];
    let (event, step) = fetch.step(SceneReply::Searched(Ok(found)));
    assert!(matches!(event, Some(SentinelEvent::SceneFound { .. })));
    match step {
        SceneStep::Get { z, x, y, url } => {
            assert_eq!((z, x, y), (2, 1, 1));
            assert_eq!(url, titiler_tile_url("v.tif", 2, 1, 1));
        }
        _ => panic!("the first tile is asked for"),
    }
    let (event, step) = fetch.step(SceneReply::Fetched(Err("lost".to_string())));
    assert!(event.is_none() && matches!(step, SceneStep::Rest { millis: 30 }));
    let (event, step) = fetch.step(SceneReply::Rested);
    assert!(event.is_none() && matches!(step, SceneStep::Get { z: 2, x: 2, y: 1, .. }));
    let (event, _) = fetch.step(SceneReply::Fetched(Ok(tile())));
    match event {
        Some(SentinelEvent::TileReady { z, x, y, image }) => {
            assert_eq!((z, x, y), (2, 2, 1));
            assert_eq!(image.pixels, vec![9, 9, 9, 255]);
        }
        _ => panic!("the tile is ready"),
    }
    let (event, step) = fetch.step(SceneReply::Rested);
    assert!(event.is_none() && matches!(step, SceneStep::Finish));
}

#[test]
fn a_run_sends_the_scene_and_the_tiles_that_came() {
    let mut client = SentinelClient::new();
    let mut fetch = client.fetch_scene(2, (0, 1), (3, 1), 0);
    let mut sent: Vec<String> = Vec::new();
    let mut reply = SceneReply::Started;
    loop {
        let (event, step) = fetch.step(reply);
        match event {
            Some(SentinelEvent::SceneFound { scene_id, .. }) => sent.push(scene_id),
            Some(SentinelEvent::TileReady { z, x, y, .. }) => sent.push(format!("{z}/{x}/{y}")),
            Some(SentinelEvent::Error(e)) => sent.push(e),
            None => {}
        }
        reply = match step {
            SceneStep::Search => SceneReply::Searched(Ok(vec![feature(asset("v.tif"), None)])),
            SceneStep::Get { x: 1, .. } => SceneReply::Fetched(Err("lost".to_string())),
            SceneStep::Get { .. } => SceneReply::Fetched(Ok(tile())),
            SceneStep::Rest { .. } => SceneReply::Rested,
            SceneStep::Finish => break,
        };
    }
    assert_eq!(sent, vec!["S2A", "2/0/1", "2/2/1", "2/3/1"]);
}

#[test]
fn a_search_can_come_to_nothing() {
    let mut client = SentinelClient::new();
    let mut fetch = client.fetch_scene(2, (1, 1), (2, 1), 0);
    fetch.step(SceneReply::Started);
    let (event, step) = fetch.step(SceneReply::Searched(Ok(Vec::new())));
    assert!(event.is_none() && matches!(step, SceneStep::Finish));

    let mut fetch = client.fetch_scene(2, (1, 1), (2, 1), 0);
    fetch.step(SceneReply::Started);
    let (event, step) = fetch.step(SceneReply::Searched(Err("HTTP 503".to_string())));
    assert!(matches!(event, Some(SentinelEvent::Error(e)) if e == "HTTP 503"));
    assert!(matches!(step, SceneStep::Finish));

    let mut fetch = client.fetch_scene(2, (1, 1), (2, 1), 0);
    fetch.step(SceneReply::Started);
    let (event, step) = fetch.step(SceneReply::Searched(Ok(vec![feature(None, None)])));
    assert!(matches!(event, Some(SentinelEvent::Error(e)) if e == "no usable asset in scene"));
    assert!(matches!(step, SceneStep::Finish));

    let mut fetch = client.fetch_scene(2, (3, 1), (2, 1), 0);
    fetch.step(SceneReply::Started);
    let (event, step) = fetch.step(SceneReply::Searched(Ok(vec![feature(asset("v"), None)])));
    assert!(matches!(event, Some(SentinelEvent::SceneFound { .. })));
    assert!(matches!(step, SceneStep::Finish));
}
