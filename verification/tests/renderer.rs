use satellite_viewer::binary::{Binary32, Binary64};
use satellite_viewer::data::Raster;
use satellite_viewer::http::HttpFailure;
use satellite_viewer::renderer::context::{choose_format, GpuContext};
use satellite_viewer::renderer::map_pipeline::{
    draw_params, index_buffer, params_buffer, pixel_layout, quad_vertices, vertex_buffer,
    PixelLayout,
};
use satellite_viewer::renderer::tile_cache::{
    downloaded_tile, osm_tile_url, received_tile, tile_event, tile_label, TileCache, TileEvent,
    TileId,
};
use satellite_viewer::renderer::viewport::MapViewport;
use satellite_viewer::tiles::TileSet;

fn f(x: f32) -> Binary32 {
    Binary32 { bits: x.to_bits() }
}

fn view(zoom: f64, w: u32, h: u32) -> MapViewport {
    let d = |x: f64| Binary64 { bits: x.to_bits() };
    MapViewport::new(d(-98.58), d(38.53), d(zoom), w, h)
}

/// Every tile around the centre, tried one by one.
fn tiles_around(z: u8, cx: i64, cy: i64, w: u32, h: u32) -> Vec<(u32, u32)> {
    let n = 1i64 << z;
    let ex = (w as f64 / 512.0).ceil() as i64 + 1;
    let ey = (h as f64 / 512.0).ceil() as i64 + 1;
    let mut tiles: Vec<(u32, u32)> = Vec::new();
    for dy in -ey..=ey {
        for dx in -ex..=ex {
            let (x, y) = (cx + dx, cy + dy);
            if x >= 0 && y >= 0 && x < n && y < n {
                tiles.push((x as u32, y as u32));
            }
        }
    }
    tiles
}

fn ready(id: TileId) -> TileEvent {
    TileEvent::Ready { id, pixels: vec![1, 2, 3, 4], width: 1, height: 1 }
}

fn failed(id: TileId) -> TileEvent {
    TileEvent::Error { id, error: "lost".to_string() }
}

#[test]
fn the_surface_has_at_least_one_pixel() {
    assert_eq!(GpuContext::new(0, 0).size(), (1, 1));
    assert_eq!(GpuContext::new(0, 7).size(), (1, 7));
    assert_eq!(GpuContext::new(1280, 800).size(), (1280, 800));
}

#[test]
fn a_window_without_area_leaves_the_surface() {
    let mut gpu = GpuContext::new(1280, 800);
    assert!(!gpu.reconfigure(0, 600));
    assert!(!gpu.reconfigure(800, 0));
    assert_eq!(gpu.size(), (1280, 800));
    assert!(gpu.reconfigure(640, 480));
    assert_eq!(gpu.size(), (640, 480));
}

#[test]
fn srgb_formats_come_first() {
    assert_eq!(choose_format(&vec![false, false, true, true]), 2);
    assert_eq!(choose_format(&vec![true, false]), 0);
    assert_eq!(choose_format(&vec![false, false]), 0);
}

#[test]
fn quads_map_the_whole_texture() {
    let corners = [
        [f(-1.0), f(1.0)],
        [f(0.5), f(1.0)],
        [f(-1.0), f(-0.25)],
        [f(0.5), f(-0.25)],
    ];
    let (vertices, indices) = quad_vertices(corners);
    let uvs = [[0.0f32, 0.0], [1.0, 0.0], [0.0, 1.0], [1.0, 1.0]];
    for i in 0..4 {
        assert_eq!(vertices[i].position, corners[i]);
        assert_eq!(vertices[i].uv, [f(uvs[i][0]), f(uvs[i][1])]);
    }
    assert_eq!(indices, [0, 1, 2, 1, 3, 2]);
}

#[test]
fn buffers_hold_the_numbers_in_memory_order() {
    let corners = [
        [f(-1.0), f(1.0)],
        [f(0.5), f(1.0)],
        [f(-1.0), f(-0.25)],
        [f(0.5), f(-0.25)],
    ];
    let (vertices, indices) = quad_vertices(corners);
    let mut expected: Vec<u8> = Vec::new();
    for v in [
        [-1.0f32, 1.0, 0.0, 0.0],
        [0.5, 1.0, 1.0, 0.0],
        [-1.0, -0.25, 0.0, 1.0],
        [0.5, -0.25, 1.0, 1.0],
    ] {
        for x in v {
            expected.extend_from_slice(&x.to_ne_bytes());
        }
    }
    assert_eq!(vertex_buffer(&vertices), expected);
    let mut expected: Vec<u8> = Vec::new();
    for i in [0u16, 1, 2, 1, 3, 2] {
        expected.extend_from_slice(&i.to_ne_bytes());
    }
    assert_eq!(index_buffer(&indices), expected);
}

#[test]
fn parameters_are_padded() {
    let params = draw_params(f(0.6));
    let mut expected: Vec<u8> = Vec::new();
    expected.extend_from_slice(&0.6f32.to_ne_bytes());
    expected.extend_from_slice(&[0; 12]);
    assert_eq!(params_buffer(&params), expected);
}

#[test]
fn rows_have_no_gaps() {
    assert_eq!(pixel_layout(256, 128), PixelLayout { bytes_per_row: 1024, rows_per_image: 128 });
    assert_eq!(pixel_layout(0, 0), PixelLayout { bytes_per_row: 0, rows_per_image: 0 });
}

#[test]
fn tile_zoom_is_rounded_down() {
    assert_eq!(view(4.0, 1, 1).tile_zoom(), 4);
    assert_eq!(view(4.99, 1, 1).tile_zoom(), 4);
    assert_eq!(view(-3.0, 1, 1).tile_zoom(), 0);
    assert_eq!(view(25.0, 1, 1).tile_zoom(), 19);
    assert_eq!(view(f64::NAN, 1, 1).tile_zoom(), 0);
}

#[test]
fn visible_tiles_lie_around_the_centre() {
    for (zoom, cx, cy, w, h) in [
        (4.0, 3, 6, 1280, 800),
        (4.7, 0, 15, 512, 513),
        (0.0, 0, 0, 1, 1),
        (10.0, 512, 300, 3840, 2160),
        (3.0, -20, 4, 100, 100),
        (3.0, 40, 4, 100, 100),
    ] {
        let v = view(zoom, w, h);
        assert_eq!(v.visible_tiles(cx, cy), tiles_around(v.tile_zoom(), cx, cy, w, h));
    }
    assert_eq!(view(1.0, 1, 1).visible_tiles(0, 0), vec![(0, 0), (1, 0), (0, 1), (1, 1)]);
}

#[test]
fn a_tile_is_fetched_once() {
    let id = TileId { z: 3, x: 1, y: 2 };
    let mut cache: TileCache<String> = TileCache::new();
    assert!(cache.get(&id).is_none());
    assert!(cache.request(id));
    assert!(!cache.request(id));
    assert!(cache.get(&id).is_none());
    cache.flush(vec![ready(id)], |label: &str, pixels: &Vec<u8>, w: u32, h: u32| {
        format!("{label} {pixels:?} {w}x{h}")
    });
    assert_eq!(cache.get(&id).unwrap(), "osm_3_1_2 [1, 2, 3, 4] 1x1");
    assert!(!cache.request(id));
}

#[test]
fn a_tile_that_failed_is_asked_for_again() {
    let id = TileId { z: 3, x: 1, y: 2 };
    let mut cache: TileCache<u8> = TileCache::new();
    assert!(cache.request(id));
    cache.flush(vec![failed(id)], |_: &str, _: &Vec<u8>, _: u32, _: u32| 0);
    assert!(cache.get(&id).is_none());
    assert!(cache.request(id));
}

#[test]
fn a_queue_settles_its_tiles() {
    let at = |y: u32| TileId { z: 3, x: 1, y };
    let upload = |label: &str, _: &Vec<u8>, _: u32, _: u32| label.to_string();
    let mut cache: TileCache<String> = TileCache::new();
    for y in 0..5 {
        cache.request(at(y));
    }
    cache.flush(vec![ready(at(0))], upload);
    cache.flush(vec![ready(at(2)), failed(at(1)), ready(at(3))], upload);
    for y in [0, 2, 3] {
        assert_eq!(cache.get(&at(y)), Some(&format!("osm_3_1_{y}")));
        assert!(!cache.request(at(y)));
    }
    assert!(cache.get(&at(1)).is_none() && cache.get(&at(4)).is_none());
    assert!(!cache.request(at(4)));
    assert!(cache.request(at(1)));
    cache.flush(Vec::new(), upload);
    assert!(!cache.request(at(1)));
    // A failure leaves a tile that is loaded, and the last arrival counts.
    let big = TileEvent::Ready { id: at(0), pixels: vec![0; 8], width: 2, height: 1 };
    let size = |_: &str, _: &Vec<u8>, w: u32, h: u32| format!("{w}x{h}");
    cache.flush(vec![ready(at(0)), big, failed(at(0))], size);
    assert_eq!(cache.get(&at(0)), Some(&"2x1".to_string()));
}

#[test]
fn eviction_keeps_what_is_wanted() {
    let (a, b) = (TileId { z: 3, x: 1, y: 2 }, TileId { z: 3, x: 1, y: 3 });
    let waiting = TileId { z: 4, x: 0, y: 0 };
    let mut cache: TileCache<u8> = TileCache::new();
    for (id, mark) in [(a, 1u8), (b, 2)] {
        cache.request(id);
        cache.flush(vec![ready(id)], |_: &str, _: &Vec<u8>, _: u32, _: u32| mark);
    }
    cache.request(waiting);
    let mut keep = TileSet::new();
    keep.insert(b);
    cache.evict(&keep);
    assert!(cache.get(&a).is_none());
    assert_eq!(cache.get(&b), Some(&2));
    assert!(!cache.request(waiting));
    assert!(cache.request(a));
}

#[test]
fn tiles_are_spread_over_three_servers() {
    let url = |x: u32, y: u32| osm_tile_url(&TileId { z: 4, x, y });
    assert_eq!(url(1, 2), "https://a.tile.openstreetmap.org/4/1/2.png");
    assert_eq!(url(3, 1), "https://b.tile.openstreetmap.org/4/3/1.png");
    assert_eq!(url(10, 1), "https://c.tile.openstreetmap.org/4/10/1.png");
    assert_eq!(tile_label(&TileId { z: 4, x: 10, y: 1 }), "osm_4_10_1");
}

#[test]
fn downloads_become_events() {
    let id = TileId { z: 1, x: 0, y: 1 };
    let picture = image::RgbaImage::from_raw(1, 1, vec![7, 8, 9, 10]).unwrap();
    let mut out = std::io::Cursor::new(Vec::new());
    picture.write_to(&mut out, image::ImageFormat::Png).unwrap();
    match downloaded_tile(id, &out.into_inner()) {
        TileEvent::Ready { id: of, pixels, width, height } => {
            assert_eq!((of, pixels, width, height), (id, vec![7, 8, 9, 10], 1, 1));
        }
        TileEvent::Error { .. } => panic!("the tile is ready"),
    }
    match downloaded_tile(id, b"junk") {
        TileEvent::Error { id: of, error } => {
            let cause = image::load_from_memory(b"junk").err().unwrap().to_string();
            assert_eq!((of, error), (id, cause));
        }
        TileEvent::Ready { .. } => panic!("junk is no picture"),
    }
    let picture = Raster { pixels: vec![1, 1, 1, 1], width: 1, height: 1 };
    assert!(matches!(tile_event(id, Ok(picture)), TileEvent::Ready { width: 1, height: 1, .. }));
    assert!(matches!(tile_event(id, Err("x".to_string())), TileEvent::Error { error, .. } if error == "x"));
}

#[test]
fn each_failure_of_a_base_tile_is_reported() {
    let id = TileId { z: 1, x: 0, y: 1 };
    let error = |reply| match received_tile(id, reply) {
        TileEvent::Error { id: of, error } => {
            assert_eq!(of, id);
            error
        }
        TileEvent::Ready { .. } => panic!("nothing was downloaded"),
    };
    assert_eq!(error(Err(HttpFailure::Status(403))), "HTTP 403");
    assert_eq!(error(Err(HttpFailure::Transport("no route".to_string()))), "no route");
    assert_eq!(error(Ok(Err("broken pipe".to_string()))), "broken pipe");
    let cause = image::load_from_memory(b"junk").err().unwrap().to_string();
    assert_eq!(error(Ok(Ok(b"junk".to_vec()))), cause);
}
