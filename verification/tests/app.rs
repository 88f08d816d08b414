use satellite_viewer::app::{AppEvent, SatelliteViewerApp};
use satellite_viewer::binary::Binary64;
use satellite_viewer::clock::{Timestamp, MAX_SECS};
use satellite_viewer::data::nexrad::{nexrad_conus_bounds, NexradEvent, TimeRange};
use satellite_viewer::data::sentinel::SentinelEvent;
use satellite_viewer::data::GeoImage;
use satellite_viewer::ui::map_view::MapViewport;

const SECOND: u64 = 1_000_000_000;

fn at(secs: i64) -> Timestamp {
    Timestamp { secs, nanos: 0 }
}

fn image() -> GeoImage {
    GeoImage { bounds: nexrad_conus_bounds(), pixels: vec![1, 0, 0, 255], width: 1, height: 1 }
}

fn viewport(zoom: f64) -> MapViewport {
    let b = |x: f64| Binary64 { bits: x.to_bits() };
    MapViewport { center_lon: b(0.0), center_lat: b(0.0), zoom: b(zoom), bounds: nexrad_conus_bounds() }
}

fn app() -> SatelliteViewerApp<String> {
    SatelliteViewerApp::new(0)
}

#[test]
fn the_application_starts_idle() {
    let app = app();
    assert!(app.show_sidebar && app.status().is_none());
    assert!(app.map_view.radar_layer.frames().is_empty());
    assert!(!app.playback_panel.playing);
}

#[test]
fn events_go_to_their_layer() {
    let mut app = app();
    let load = |name: &str, _: &GeoImage| name.to_string();
    app.process_event(
        AppEvent::Nexrad(NexradEvent::FrameReady { timestamp: at(300), image: image() }),
        load,
    );
    assert_eq!(app.map_view.radar_layer.frames().len(), 1);
    assert_eq!(app.map_view.radar_layer.current_texture_id(), Some(&"nexrad_300".to_string()));
    assert!(app.map_view.sentinel_layer.plugin().images().is_empty());
    app.process_event(
        AppEvent::Sentinel(SentinelEvent::TileReady { z: 1, x: 0, y: 1, image: image() }),
        load,
    );
    assert_eq!(app.map_view.sentinel_layer.plugin().images().len(), 1);
    assert_eq!(app.map_view.radar_layer.frames().len(), 1);
    assert!(!app.tick_playback(SECOND, 9 * SECOND));
}

#[test]
fn both_fetches_start_at_once() {
    let mut app = app();
    let fetches = app.maybe_fetch_new_data(&viewport(2.0), false, (1, 1), (2, 9), 10 * SECOND);
    let scene = fetches.scene.unwrap();
    assert_eq!((scene.z, scene.tiles.len()), (2, 6));
    assert_eq!(scene.tiles[5], (2, 3));
    assert_eq!(app.status(), Some("Fetching satellite…"));
    let window = fetches.window.unwrap();
    assert_eq!(window.end.secs - window.start.secs, 7200);
    let frames = app.fetch_window(window).unwrap();
    assert_eq!(frames.timestamps, window.frames());
    assert_eq!(app.status(), Some("Fetching radar…"));

    let again = app.maybe_fetch_new_data(&viewport(2.0), false, (1, 1), (2, 9), 900 * SECOND);
    assert!(again.scene.is_none() && again.window.is_none());
}

#[test]
fn fetches_wait_their_turn() {
    let mut app = app();
    let first = app.maybe_fetch_new_data(&viewport(2.0), false, (1, 1), (2, 2), 0);
    app.fetch_window(first.window.unwrap());
    app.sentinel_client.finish(viewport(2.0));
    app.nexrad_client.finish(SECOND, true);
    assert!(app.status().is_none());
    let early = app.maybe_fetch_new_data(&viewport(3.0), false, (1, 1), (2, 2), 4 * SECOND);
    assert!(early.scene.is_none() && early.window.is_none());
    let close = app.maybe_fetch_new_data(&viewport(2.0), true, (1, 1), (2, 2), 20 * SECOND);
    assert!(close.scene.is_none() && close.window.is_none());
    let later = app.maybe_fetch_new_data(&viewport(3.0), false, (1, 1), (2, 2), 20 * SECOND);
    assert_eq!(later.scene.unwrap().z, 3);
    assert!(later.window.is_none());
    let minute = app.maybe_fetch_new_data(&viewport(3.0), true, (1, 1), (2, 2), 61 * SECOND);
    assert!(minute.scene.is_none() && minute.window.is_some());
}

#[test]
fn ticks_show_the_next_frame() {
    let mut app = app();
    for secs in [0, 300, 600] {
        app.process_event(
            AppEvent::Nexrad(NexradEvent::FrameReady { timestamp: at(secs), image: image() }),
            |name: &str, _: &GeoImage| name.to_string(),
        );
    }
    assert!(!app.tick_playback(SECOND, 5 * SECOND));
    app.playback_panel.toggle_play(5 * SECOND);
    assert!(!app.tick_playback(SECOND, 5 * SECOND));
    assert!(app.tick_playback(SECOND, 6 * SECOND));
    assert_eq!(app.map_view.radar_layer.store.current_index, 1);
    assert!(app.tick_playback(SECOND, 7 * SECOND));
    assert!(app.tick_playback(SECOND, 8 * SECOND));
    assert_eq!(app.map_view.radar_layer.store.current_index, 0);
    app.playback_panel.loop_enabled = false;
    app.map_view.radar_layer.set_frame(2);
    assert!(!app.tick_playback(SECOND, 9 * SECOND));
    assert!(!app.playback_panel.playing);
    assert_eq!(app.map_view.radar_layer.store.current_index, 2);
}

#[test]
fn a_failed_radar_fetch_is_tried_again() {
    let mut app = app();
    let first = app.maybe_fetch_new_data(&viewport(2.0), true, (1, 1), (2, 2), 0);
    app.fetch_window(first.window.unwrap());
    app.nexrad_client.finish(SECOND, false);
    let again = app.maybe_fetch_new_data(&viewport(2.0), true, (1, 1), (2, 2), SECOND);
    assert!(again.window.is_some());
}

#[test]
fn a_window_that_runs_past_the_calendar_is_not_fetched() {
    let mut app = app();
    let range = TimeRange { start: at(MAX_SECS - 1000), end: at(MAX_SECS) };
    assert!(app.fetch_window(range).is_none());
    assert!(!app.nexrad_client.is_fetching());
    let range = TimeRange { start: at(MAX_SECS - 1000), end: at(MAX_SECS - 299) };
    assert_eq!(app.fetch_window(range).unwrap().timestamps.len(), 3);
    assert!(app.nexrad_client.is_fetching());
}
