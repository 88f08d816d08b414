use satellite_viewer::binary::{Binary32, Binary64};
use satellite_viewer::clock::{nanos_since, Timestamp};
use satellite_viewer::data::nexrad::{nexrad_conus_bounds, NexradClient, NexradEvent};
use satellite_viewer::data::sentinel::{SentinelClient, SentinelEvent};
use satellite_viewer::data::{GeoBounds, GeoImage};
use satellite_viewer::ui::map_view::{MapView, MapViewport, RadarLayer, SentinelLayer};
use satellite_viewer::ui::playback::{
    frame_counter, frame_label, loop_span, span_text, step_back, step_forward, FrameLabel,
    PlaybackPanel, PlaybackSpeed,
};
use satellite_viewer::ui::sidebar::{radar_status, scene_info, Sidebar, SidebarSection};

const FRAME: u64 = 200_000_000;

fn b(x: f64) -> Binary64 {
    Binary64 { bits: x.to_bits() }
}

fn at(secs: i64) -> Timestamp {
    Timestamp { secs, nanos: 0 }
}

fn image(mark: u8) -> GeoImage {
    GeoImage { bounds: nexrad_conus_bounds(), pixels: vec![mark, 0, 0, 255], width: 1, height: 1 }
}

fn named(name: &str, image: &GeoImage) -> String {
    format!("{name}:{}", image.pixels[0])
}

fn radar(times: &[i64]) -> RadarLayer<String> {
    let mut layer: RadarLayer<String> = RadarLayer::new();
    for t in times {
        layer.handle_event(NexradEvent::FrameReady { timestamp: at(*t), image: image(1) }, named);
    }
    layer
}

fn found(id: &str) -> SentinelEvent {
    SentinelEvent::SceneFound {
        scene_id: id.to_string(),
        bounds: nexrad_conus_bounds(),
        cloud_cover: b(3.5),
        datetime: "today".to_string(),
        cog_url: "v.tif".to_string(),
    }
}

#[test]
fn zoom_levels_are_rounded() {
    let level = |zoom: f64| {
        MapViewport { center_lon: b(0.0), center_lat: b(0.0), zoom: b(zoom), bounds: nexrad_conus_bounds() }
            .zoom_level()
    };
    assert_eq!(level(4.0), 4);
    assert_eq!(level(4.5), 5);
    assert_eq!(level(4.49), 4);
    assert_eq!(level(0.2), 1);
    assert_eq!(level(-7.0), 1);
    assert_eq!(level(22.0), 18);
    assert_eq!(level(f64::NAN), 0);
}

#[test]
fn layers_start_visible_and_empty() {
    let view: MapView<u8> = MapView::new();
    assert!(view.sentinel_layer.visible && view.radar_layer.visible);
    assert_eq!(f32::from_bits(view.sentinel_layer.opacity.bits), 0.8);
    assert_eq!(f32::from_bits(view.radar_layer.opacity.bits), 0.6);
    assert!(view.sentinel_layer.scene_id.is_none());
    assert!(view.radar_layer.frames().is_empty());
    assert!(view.radar_layer.current_texture_id().is_none());
    assert!(view.radar_layer.plugin().image().is_none());
    assert!(view.sentinel_layer.plugin().images().is_empty());
}

#[test]
fn a_new_scene_drops_the_tiles_of_the_old_one() {
    let mut layer: SentinelLayer<String> = SentinelLayer::new();
    layer.handle_event(found("first"), named);
    layer.handle_event(SentinelEvent::TileReady { z: 2, x: 1, y: 3, image: image(4) }, named);
    layer.handle_event(SentinelEvent::TileReady { z: 2, x: 2, y: 3, image: image(5) }, named);
    layer.handle_event(SentinelEvent::TileReady { z: 2, x: 1, y: 3, image: image(6) }, named);
    layer.handle_event(SentinelEvent::Error("x".to_string()), named);
    let mut drawn: Vec<String> = Vec::new();
    for tile in layer.plugin().images() {
        assert!(tile.bounds == nexrad_conus_bounds());
        drawn.push(tile.texture.clone());
    }
    drawn.sort();
    assert_eq!(drawn, vec!["sentinel_2_1_3:6".to_string(), "sentinel_2_2_3:5".to_string()]);
    layer.visible = false;
    assert!(layer.plugin().images().is_empty());
    layer.visible = true;
    layer.handle_event(found("second"), named);
    assert!(layer.plugin().images().is_empty());
    assert_eq!(layer.scene_id, Some("second".to_string()));
    assert_eq!(layer.cog_url, Some("v.tif".to_string()));
    assert_eq!(layer.scene_datetime, Some("today".to_string()));
    assert_eq!(f64::from_bits(layer.cloud_cover.unwrap().bits), 3.5);
}

#[test]
fn tiles_keep_the_place_of_their_latest_image() {
    let elsewhere = GeoBounds::new(b(1.0), b(2.0), b(3.0), b(4.0));
    let tile = |x: u32, bounds: GeoBounds| SentinelEvent::TileReady {
        z: 2,
        x,
        y: 0,
        image: GeoImage { bounds, pixels: vec![0; 4], width: 1, height: 1 },
    };
    let mut layer: SentinelLayer<String> = SentinelLayer::new();
    layer.handle_event(tile(0, elsewhere), named);
    layer.handle_event(found("first"), named);
    layer.handle_event(tile(1, nexrad_conus_bounds()), named);
    layer.handle_event(SentinelEvent::Error("x".to_string()), named);
    layer.handle_event(tile(2, nexrad_conus_bounds()), named);
    layer.handle_event(tile(1, elsewhere), named);
    let plugin = layer.plugin();
    let mut places: Vec<(u32, bool)> =
        plugin.images().iter().map(|t| (t.id.x, t.bounds == elsewhere)).collect();
    places.sort();
    assert_eq!(places, vec![(1, true), (2, false)]);
    assert_eq!(layer.scene_id, Some("first".to_string()));
}

#[test]
fn the_current_frame_gets_a_texture() {
    let mut layer = radar(&[600]);
    assert_eq!(layer.current_texture_id(), Some(&"nexrad_600:1".to_string()));
    layer.handle_event(NexradEvent::FrameReady { timestamp: at(900), image: image(2) }, named);
    assert_eq!(layer.current_texture_id(), Some(&"nexrad_600:1".to_string()));
    layer.set_frame(1);
    assert!(layer.current_texture_id().is_none());
    layer.handle_event(NexradEvent::FrameReady { timestamp: at(1200), image: image(3) }, named);
    assert_eq!(layer.current_texture_id(), Some(&"nexrad_900:2".to_string()));
    assert_eq!(layer.current_timestamp(), Some(at(900)));
    let plugin = layer.plugin();
    let (texture, bounds): (&String, GeoBounds) = plugin.image().unwrap();
    assert_eq!(texture, "nexrad_900:2");
    assert!(bounds == nexrad_conus_bounds());
    layer.visible = false;
    assert!(layer.plugin().image().is_none());
}

#[test]
fn other_radar_events_change_nothing() {
    let mut layer = radar(&[0, 300]);
    layer.handle_event(NexradEvent::FrameError { timestamp: at(600), error: "e".to_string() }, named);
    layer.handle_event(NexradEvent::FetchComplete, named);
    assert_eq!(layer.frames().len(), 2);
    assert_eq!(layer.store.timestamps(), vec![at(0), at(300)]);
}

#[test]
fn textures_of_frames_before_1970_have_a_sign() {
    assert_eq!(radar(&[-600]).current_texture_id(), Some(&"nexrad_-600:1".to_string()));
}

#[test]
fn set_frame_ignores_frames_that_are_not_there() {
    let mut layer = radar(&[0, 300, 600]);
    layer.set_frame(2);
    assert_eq!(layer.store.current_index, 2);
    layer.set_frame(3);
    assert_eq!(layer.store.current_index, 2);
}

#[test]
fn the_panel_starts_paused() {
    let panel = PlaybackPanel::new(7);
    assert!(!panel.playing && panel.loop_enabled);
    assert_eq!((panel.hours_back, panel.last_advance), (2, 7));
    assert_eq!(f32::from_bits(panel.speed.fps().bits), 5.0);
    assert_eq!(panel.play_label(), "▶");
}

#[test]
fn speeds_can_be_picked() {
    let expected = [(1.0f32, "1×"), (2.0, "2×"), (5.0, "5×"), (10.0, "10×"), (0.5, "½×")];
    let presets = PlaybackSpeed::presets();
    for i in 0..5 {
        assert_eq!(f32::from_bits(presets[i].fps.bits), expected[i].0);
        assert_eq!(presets[i].label, expected[i].1);
    }
    let mut panel = PlaybackPanel::new(0);
    panel.set_speed(Binary32 { bits: 2.0f32.to_bits() });
    assert_eq!(f32::from_bits(panel.speed.fps().bits), 2.0);
}

#[test]
fn the_window_reaches_back_some_hours() {
    let mut panel = PlaybackPanel::new(0);
    panel.hours_back = 3;
    let range = panel.time_range_at(Timestamp { secs: 100_000, nanos: 5 });
    assert_eq!(range.end, Timestamp { secs: 100_000, nanos: 5 });
    assert_eq!(range.start, Timestamp { secs: 100_000 - 3 * 3600, nanos: 5 });
    let leap = Timestamp { secs: 1_483_228_799, nanos: 1_250_000_000 };
    let range = panel.time_range_at(leap);
    assert_eq!(range.start, Timestamp { secs: 1_483_228_800 - 3 * 3600, nanos: 250_000_000 });
    panel.hours_back = 0;
    assert_eq!(panel.time_range_at(leap).start, leap);
}

#[test]
fn the_window_ends_now() {
    let clock = || {
        let since = std::time::SystemTime::now().duration_since(std::time::UNIX_EPOCH).unwrap();
        since.as_secs() as i64
    };
    let before = clock();
    let range = PlaybackPanel::new(0).time_range();
    let after = clock();
    assert!(before <= range.end.secs && range.end.secs <= after);
    assert_eq!(range.end.secs - range.start.secs, 7200);
    let whole = range.start.secs + if range.start.nanos > 0 { 1 } else { 0 };
    assert_eq!(range.frames().len() as i64, range.end.secs / 300 - (whole + 299) / 300 + 1);
}

#[test]
fn the_play_button_toggles() {
    let mut panel = PlaybackPanel::new(0);
    panel.toggle_play(42);
    assert!(panel.playing);
    assert_eq!((panel.play_label(), panel.last_advance), ("⏸", 42));
    panel.toggle_play(50);
    assert!(!panel.playing);
    assert_eq!(panel.last_advance, 50);
}

#[test]
fn steps_go_round_both_ways() {
    let mut layer = radar(&[0, 300, 600]);
    step_back(&mut layer);
    assert_eq!(layer.store.current_index, 2);
    step_forward(&mut layer);
    assert_eq!(layer.store.current_index, 0);
    step_forward(&mut layer);
    step_back(&mut layer);
    assert_eq!(layer.store.current_index, 0);
    let mut empty = radar(&[]);
    step_back(&mut empty);
    step_forward(&mut empty);
    assert_eq!(empty.store.current_index, 0);
}

#[test]
fn scrubbing_pauses() {
    let mut layer = radar(&[0, 300, 600]);
    let mut panel = PlaybackPanel::new(0);
    panel.toggle_play(0);
    panel.scrub(&mut layer, 2);
    assert!(!panel.playing);
    assert_eq!(layer.store.current_index, 2);
}

#[test]
fn the_loop_waits_for_a_frames_time() {
    let mut layer = radar(&[0, 300, 600]);
    let mut panel = PlaybackPanel::new(0);
    assert!(!panel.auto_advance(&mut layer, FRAME, 10 * FRAME));
    assert_eq!(layer.store.current_index, 0);
    panel.toggle_play(1000);
    assert!(panel.auto_advance(&mut layer, FRAME, 1000 + FRAME - 1));
    assert_eq!((layer.store.current_index, panel.last_advance), (0, 1000));
    assert!(panel.auto_advance(&mut layer, FRAME, 1000 + FRAME));
    assert_eq!((layer.store.current_index, panel.last_advance), (1, 1000 + FRAME));
    assert!(panel.auto_advance(&mut layer, FRAME, 0));
    assert_eq!(layer.store.current_index, 1);
}

#[test]
fn the_loop_starts_over() {
    let mut layer = radar(&[0, 300, 600]);
    let mut panel = PlaybackPanel::new(0);
    panel.toggle_play(0);
    let mut seen: Vec<usize> = Vec::new();
    for k in 1..8u64 {
        panel.auto_advance(&mut layer, FRAME, k * FRAME);
        seen.push(layer.store.current_index);
    }
    assert_eq!(seen, vec![1, 2, 0, 1, 2, 0, 1]);
    assert!(panel.playing);
}

#[test]
fn without_looping_playback_stops_at_the_last_frame() {
    let mut layer = radar(&[0, 300, 600]);
    let mut panel = PlaybackPanel::new(0);
    panel.loop_enabled = false;
    panel.toggle_play(0);
    for k in 1..3u64 {
        assert!(panel.auto_advance(&mut layer, FRAME, k * FRAME));
        assert!(panel.playing);
    }
    assert!(panel.auto_advance(&mut layer, FRAME, 3 * FRAME));
    assert!(!panel.playing);
    assert_eq!(layer.store.current_index, 2);
    assert!(!panel.auto_advance(&mut layer, FRAME, 9 * FRAME));
    assert_eq!(layer.store.current_index, 2);
}

#[test]
fn one_frame_does_not_play() {
    let mut layer = radar(&[0]);
    let mut panel = PlaybackPanel::new(0);
    panel.toggle_play(0);
    assert!(!panel.auto_advance(&mut layer, FRAME, 9 * FRAME));
    assert!(panel.playing);
}

#[test]
fn the_tick_advances_after_a_frames_time() {
    let mut panel = PlaybackPanel::new(0);
    assert_eq!(panel.tick(0, 3, FRAME, 10 * FRAME), None);
    panel.toggle_play(1000);
    assert_eq!(panel.tick(0, 3, FRAME, 1000 + FRAME - 1), None);
    assert_eq!(panel.last_advance, 1000);
    assert_eq!(panel.tick(0, 3, FRAME, 1000 + FRAME), Some(1));
    assert_eq!(panel.last_advance, 1000 + FRAME);
    assert_eq!(panel.tick(1, 3, FRAME, 1000 + FRAME), None);
    assert_eq!(panel.tick(2, 3, FRAME, 1000 + 2 * FRAME), Some(0));
    assert_eq!(panel.tick(0, 1, FRAME, 1000 + 9 * FRAME), None);
    assert_eq!(panel.last_advance, 1000 + 2 * FRAME);
    panel.loop_enabled = false;
    assert_eq!(panel.tick(2, 3, FRAME, 1000 + 9 * FRAME), None);
    assert!(!panel.playing);
    assert_eq!(panel.last_advance, 1000 + 9 * FRAME);
}

#[test]
fn the_panel_keeps_no_frame_count() {
    let mut panel = PlaybackPanel::new(3);
    panel.toggle_play(5);
    panel.sync_from_radar(&radar(&[0, 300]));
    assert!(panel.playing);
    assert_eq!(panel.last_advance, 5);
}

#[test]
fn speeds_are_compared_as_numbers() {
    let fps = |x: f32| PlaybackSpeed::Fps(Binary32 { bits: x.to_bits() });
    let samples = [0.0f32, -0.0, 1.0, -1.0, 0.5, 1e-45, f32::INFINITY, f32::NEG_INFINITY, f32::NAN];
    for x in samples {
        for y in samples {
            assert_eq!(fps(x) == fps(y), x == y, "{x} == {y}");
        }
    }
}

#[test]
fn the_current_frame_is_labelled() {
    let mut layer = radar(&[1_710_506_100]);
    assert!(matches!(frame_label(&layer), FrameLabel::Time(t) if t == "2024-03-15 12:35 UTC"));
    layer.store.current_index = 5;
    assert!(matches!(frame_label(&layer), FrameLabel::Blank));
    assert!(matches!(frame_label(&radar(&[])), FrameLabel::NoFrames("No frames loaded")));
}

#[test]
fn frames_are_counted_from_one() {
    let mut layer = radar(&[0, 300, 600]);
    assert_eq!(frame_counter(&layer), Some("1/3".to_string()));
    layer.set_frame(2);
    assert_eq!(frame_counter(&layer), Some("3/3".to_string()));
    assert_eq!(frame_counter(&radar(&[])), None);
}

#[test]
fn the_scrubber_shows_its_ends() {
    assert_eq!(span_text("10:00", "12:00 UTC"), "10:00 → 12:00 UTC");
    assert_eq!(
        loop_span(&radar(&[1_710_506_100, 1_710_498_600])),
        Some("10:30 → 12:35 UTC".to_string())
    );
    assert_eq!(loop_span(&radar(&[0])), None);
    assert_eq!(loop_span(&radar(&[])), None);
}

#[test]
fn elapsed_time_is_never_negative() {
    assert_eq!(nanos_since(5, 9), 4);
    assert_eq!(nanos_since(9, 5), 0);
}

#[test]
fn the_sidebar_opens_at_the_layers() {
    assert_eq!(Sidebar::default().open_section, SidebarSection::Layers);
    assert_eq!(SidebarSection::default(), SidebarSection::Layers);
    let titles: Vec<&str> = SidebarSection::tabs().iter().map(|t| t.title()).collect();
    assert_eq!(titles, vec!["Layers", "Radar", "Satellite", "About"]);
}

#[test]
fn the_sidebar_shows_the_fetches() {
    let mut client = NexradClient::new();
    assert_eq!(radar_status(&client), "Status: Ready");
    client.fetching = true;
    assert_eq!(radar_status(&client), "Status: Fetching…");
}

#[test]
fn the_sidebar_shows_the_scene() {
    let mut layer: SentinelLayer<String> = SentinelLayer::new();
    let mut client = SentinelClient::new();
    let info = scene_info(&layer, &client);
    assert_eq!((info.scene_id, info.date, info.status), ("—", "—", "Idle"));
    assert!(info.cloud_cover.is_none());
    layer.handle_event(found("S2B"), named);
    client.fetching = true;
    let info = scene_info(&layer, &client);
    assert_eq!((info.scene_id, info.date, info.status), ("S2B", "today", "Fetching…"));
    assert_eq!(f64::from_bits(info.cloud_cover.unwrap().bits), 3.5);
}
