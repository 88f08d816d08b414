use satellite_viewer::clock::{Timestamp, MAX_SECS};
use satellite_viewer::data::nexrad::{
    check_status, composite_url, decode_png_to_geo_image, iem_composite_url, nexrad_conus_bounds,
    received_frame, request_error, FetchPhase, FrameReply, FrameStep, NexradClient, NexradEvent, RadarFrameStore,
    TimeRange,
};
use satellite_viewer::data::GeoImage;

const SECOND: u64 = 1_000_000_000;

fn at(secs: i64) -> Timestamp {
    Timestamp { secs, nanos: 0 }
}

fn image(mark: u8) -> GeoImage {
    GeoImage { bounds: nexrad_conus_bounds(), pixels: vec![mark, 0, 0, 255], width: 1, height: 1 }
}

fn png(width: u32, height: u32, pixels: Vec<u8>) -> Vec<u8> {
    let picture = image::RgbaImage::from_raw(width, height, pixels).unwrap();
    let mut out = std::io::Cursor::new(Vec::new());
    picture.write_to(&mut out, image::ImageFormat::Png).unwrap();
    out.into_inner()
}

#[test]
fn conus_bounds_are_in_degrees() {
    let b = nexrad_conus_bounds();
    assert_eq!(f64::from_bits(b.min_lon.bits), -126.0);
    assert_eq!(f64::from_bits(b.min_lat.bits), 23.0);
    assert_eq!(f64::from_bits(b.max_lon.bits), -66.0);
    assert_eq!(f64::from_bits(b.max_lat.bits), 50.0);
}

#[test]
fn frames_start_at_the_first_boundary_in_the_window() {
    // 2024-03-15 10:33:20 to 10:50:00
    let range = TimeRange { start: at(1_710_498_800), end: at(1_710_499_800) };
    let first = 1_710_498_900;
    assert_eq!(range.frames(), vec![at(first), at(first + 300), at(first + 600), at(first + 900)]);
    // 2024-01-01 12:03:00 to 12:10:00
    let range = TimeRange { start: at(1_704_110_580), end: at(1_704_111_000) };
    assert_eq!(range.frames(), vec![at(1_704_110_700), at(1_704_111_000)]);
}

#[test]
fn a_window_of_two_hours_has_25_frames() {
    let range = TimeRange { start: at(1_710_498_600), end: at(1_710_498_600 + 7200) };
    let frames = range.frames();
    assert_eq!(frames.len(), 25);
    for i in 0..frames.len() {
        assert_eq!(frames[i], at(1_710_498_600 + 300 * i as i64));
    }
}

#[test]
fn a_window_without_a_boundary_has_no_frames() {
    let backwards = TimeRange { start: at(1_710_499_800), end: at(1_710_498_600) };
    assert!(backwards.frames().is_empty());
    let between = TimeRange { start: at(1_710_498_601), end: at(1_710_498_899) };
    assert!(between.frames().is_empty());
    let point = TimeRange { start: at(1_710_498_600), end: at(1_710_498_600) };
    assert_eq!(point.frames(), vec![at(1_710_498_600)]);
}

#[test]
fn frames_before_1970_are_on_boundaries() {
    let range = TimeRange { start: at(-310), end: at(1) };
    assert_eq!(range.frames(), vec![at(-300), at(0)]);
    let range = TimeRange { start: at(-300), end: at(-1) };
    assert_eq!(range.frames(), vec![at(-300)]);
}

#[test]
fn nanoseconds_past_a_boundary_leave_it_out() {
    let start = Timestamp { secs: 1_710_498_600, nanos: 1 };
    let range = TimeRange { start, end: at(1_710_498_899) };
    assert!(range.frames().is_empty());
    let range = TimeRange { start, end: at(1_710_498_900) };
    assert_eq!(range.frames(), vec![at(1_710_498_900)]);
}

#[test]
fn a_leap_second_leads_to_the_boundary_after_it() {
    // 2016-12-31 23:59:60.5
    let leap = 1_483_228_799;
    let range = TimeRange {
        start: Timestamp { secs: leap, nanos: 1_500_000_000 },
        end: at(leap + 700),
    };
    assert_eq!(range.frames(), vec![at(leap + 1), at(leap + 301), at(leap + 601)]);
    // A leap second that no boundary follows.
    let leap = 1_483_228_799 + 60;
    let range = TimeRange {
        start: Timestamp { secs: leap, nanos: 1_000_000_000 },
        end: at(leap + 300),
    };
    assert_eq!(range.frames(), vec![at(leap + 241)]);
}

#[test]
fn windows_may_run_past_the_calendar() {
    let window = |from: i64, to: i64| TimeRange { start: at(MAX_SECS - from), end: at(MAX_SECS - to) };
    assert!(window(1000, 299).fits());
    assert_eq!(window(1000, 299).frames().len(), 3);
    assert!(!window(1000, 100).fits());
    assert!(window(1000, 101).fits());
    assert!(window(10, 20).fits());
    assert!(window(10, 20).frames().is_empty());
    assert!(!window(10, 10).fits());
    let ordinary = TimeRange { start: at(0), end: at(MAX_SECS) };
    assert!(!ordinary.fits());
}

#[test]
fn far_times_are_not_cut() {
    // The nanoseconds since 1970 of the year 3000 do not fit in 64 bits.
    let start = Timestamp { secs: 32_503_680_017, nanos: 5 };
    let range = TimeRange { start, end: at(32_503_680_400) };
    assert_eq!(range.frames(), vec![start, Timestamp { secs: 32_503_680_317, nanos: 5 }]);
}

#[test]
fn composites_are_published_by_date_and_time() {
    assert_eq!(
        composite_url("2024", "03", "15", "12", "35"),
        "https://mesonet.agron.iastate.edu/archive/data/2024/03/15/GIS/uscomp/n0r_202403151235.png"
    );
    assert_eq!(
        iem_composite_url(at(1_710_506_100)),
        "https://mesonet.agron.iastate.edu/archive/data/2024/03/15/GIS/uscomp/n0r_202403151235.png"
    );
    assert_eq!(
        iem_composite_url(at(946_684_500)),
        "https://mesonet.agron.iastate.edu/archive/data/1999/12/31/GIS/uscomp/n0r_199912312355.png"
    );
}

#[test]
fn only_success_carries_a_composite() {
    assert_eq!(check_status(200, "u"), Ok(()));
    assert_eq!(check_status(299, "u"), Ok(()));
    assert_eq!(check_status(404, "u"), Err("frame not yet available (404)".to_string()));
    assert_eq!(
        check_status(500, "http://x/y"),
        Err("HTTP 500 Internal Server Error for http://x/y".to_string())
    );
    assert_eq!(check_status(302, "u"), Err("HTTP 302 Found for u".to_string()));
    assert_eq!(
        check_status(799, "u"),
        Err("HTTP 799 <unknown status code> for u".to_string())
    );
    assert_eq!(request_error("http://x/y"), "HTTP GET http://x/y");
}

#[test]
fn composites_are_decoded_to_rgba() {
    let pixels = vec![1, 2, 3, 255, 4, 5, 6, 255];
    let image = decode_png_to_geo_image(&png(2, 1, pixels.clone())).unwrap();
    assert_eq!((image.width, image.height), (2, 1));
    assert_eq!(image.pixels, pixels);
    assert!(image.bounds == nexrad_conus_bounds());
}

#[test]
fn what_is_no_composite_is_reported() {
    assert_eq!(decode_png_to_geo_image(b"not a picture").err(), Some("decoding PNG".to_string()));
    assert_eq!(decode_png_to_geo_image(b"").err(), Some("decoding PNG".to_string()));
}

#[test]
fn each_failure_of_a_request_is_reported() {
    let picture = png(1, 1, vec![1, 2, 3, 255]);
    let error = |code: Option<u16>, body: Option<&[u8]>| received_frame(code, body, "u").err();
    assert_eq!(error(None, None), Some("HTTP GET u".to_string()));
    assert_eq!(
        error(Some(404), Some(&picture)),
        Some("frame not yet available (404)".to_string())
    );
    assert_eq!(
        error(Some(503), Some(&picture)),
        Some("HTTP 503 Service Unavailable for u".to_string())
    );
    assert_eq!(error(Some(200), None), Some("reading response body".to_string()));
    assert_eq!(error(Some(200), Some(b"junk")), Some("decoding PNG".to_string()));
    let image = received_frame(Some(200), Some(&picture), "u").unwrap();
    assert_eq!(image.pixels, vec![1, 2, 3, 255]);
}

#[test]
fn the_store_keeps_frames_sorted() {
    let mut store = RadarFrameStore::default();
    assert!(store.is_empty() && store.current().is_none());
    for secs in [300, 900, 0, 600] {
        store.insert(at(secs), image((secs / 300) as u8));
    }
    assert_eq!(store.len(), 4);
    assert!(!store.is_empty());
    assert_eq!(store.timestamps(), vec![at(0), at(300), at(600), at(900)]);
    for i in 0..4usize {
        assert_eq!(store.frames[i].image.pixels[0], i as u8);
    }
}

#[test]
fn the_order_of_arrival_does_not_matter() {
    let mut a = RadarFrameStore::default();
    let mut b = RadarFrameStore::default();
    for secs in [0, 300, 600] {
        a.insert(at(secs), image(1));
    }
    for secs in [600, 0, 300] {
        b.insert(at(secs), image(1));
    }
    assert_eq!(a.timestamps(), b.timestamps());
}

#[test]
fn a_frame_that_is_there_is_replaced() {
    let mut store = RadarFrameStore::default();
    store.insert(at(0), image(1));
    store.insert(at(300), image(2));
    store.insert(at(0), image(7));
    assert_eq!(store.len(), 2);
    assert_eq!(store.frames[0].image.pixels[0], 7);
    assert_eq!(store.frames[1].image.pixels[0], 2);
}

#[test]
fn an_insert_keeps_the_position() {
    let mut store = RadarFrameStore::default();
    store.insert(at(300), image(2));
    store.insert(at(600), image(3));
    store.current_index = 1;
    store.insert(at(900), image(4));
    assert_eq!(store.current().unwrap().timestamp, at(600));
    store.insert(at(0), image(1));
    assert_eq!(store.current_index, 1);
    assert_eq!(store.current().unwrap().timestamp, at(300));
}

#[test]
fn advance_goes_round() {
    let mut store = RadarFrameStore::default();
    assert!(!store.advance());
    assert_eq!(store.current_index, 0);
    for secs in [0, 300, 600] {
        store.insert(at(secs), image(1));
    }
    let mut seen: Vec<i64> = Vec::new();
    for _ in 0..4 {
        seen.push(store.current().unwrap().timestamp.secs);
        assert!(store.advance());
    }
    assert_eq!(seen, vec![0, 300, 600, 0]);
    store.current_index = 8;
    assert!(store.current().is_none());
    assert!(store.advance());
    assert_eq!(store.current_index, 0);
}

#[test]
fn the_radar_is_refreshed_after_a_minute() {
    let mut client = NexradClient::new();
    assert!(!client.is_fetching() && client.needs_refresh(0));
    let range = TimeRange { start: at(0), end: at(300) };
    let fetch = client.fetch_frames(&range);
    assert_eq!(fetch.timestamps, vec![at(0), at(300)]);
    assert!(client.is_fetching() && !client.needs_refresh(1000 * SECOND));
    client.finish(10 * SECOND, true);
    assert!(!client.is_fetching());
    assert!(!client.needs_refresh(10 * SECOND));
    assert!(!client.needs_refresh(70 * SECOND - 1));
    assert!(client.needs_refresh(70 * SECOND));
    assert!(!client.needs_refresh(0));
}

#[test]
fn a_fetch_without_a_frame_does_not_count() {
    let mut client = NexradClient::new();
    let mut fetch = client.fetch_frames(&TimeRange { start: at(0), end: at(300) });
    fetch.step(FrameReply::Started);
    for _ in 0..2 {
        fetch.step(FrameReply::Fetched(Err("lost".to_string())));
        fetch.step(FrameReply::Rested);
    }
    assert!(fetch.phase == FetchPhase::Finished && !fetch.fetched);
    client.finish(10 * SECOND, fetch.fetched);
    assert!(client.last_fetch.is_none() && client.needs_refresh(10 * SECOND));

    let mut fetch = client.fetch_frames(&TimeRange { start: at(0), end: at(300) });
    fetch.step(FrameReply::Started);
    fetch.step(FrameReply::Fetched(Ok(image(1))));
    fetch.step(FrameReply::Rested);
    fetch.step(FrameReply::Fetched(Err("lost".to_string())));
    fetch.step(FrameReply::Rested);
    client.finish(20 * SECOND, fetch.fetched);
    assert_eq!(client.last_fetch, Some(20 * SECOND));
    assert!(!client.needs_refresh(20 * SECOND));
}

#[test]
fn a_fetch_reports_each_frame_and_the_end() {
    let mut client = NexradClient::new();
    let range = TimeRange { start: at(1_710_506_100), end: at(1_710_506_400) };
    let mut fetch = client.fetch_frames(&range);
    let (event, step) = fetch.step(FrameReply::Started);
    assert!(event.is_none());
    match step {
        FrameStep::Get { timestamp, url } => {
            assert_eq!(timestamp, at(1_710_506_100));
            assert_eq!(url, iem_composite_url(timestamp));
        }
        _ => panic!("the first frame is asked for"),
    }
    let (event, step) = fetch.step(FrameReply::Fetched(Ok(image(5))));
    match event {
        Some(NexradEvent::FrameReady { timestamp, image }) => {
            assert_eq!(timestamp, at(1_710_506_100));
            assert_eq!(image.pixels[0], 5);
        }
        _ => panic!("the frame is ready"),
    }
    assert!(matches!(step, FrameStep::Rest { millis: 50 }));
    let (event, step) = fetch.step(FrameReply::Rested);
    assert!(event.is_none());
    assert!(matches!(step, FrameStep::Get { timestamp, .. } if timestamp == at(1_710_506_400)));
    let (event, step) = fetch.step(FrameReply::Fetched(Err("lost".to_string())));
    match event {
        Some(NexradEvent::FrameError { timestamp, error }) => {
            assert_eq!((timestamp, error), (at(1_710_506_400), "lost".to_string()));
        }
        _ => panic!("the failure is reported"),
    }
    assert!(matches!(step, FrameStep::Rest { millis: 50 }));
    let (event, step) = fetch.step(FrameReply::Rested);
    assert!(matches!(event, Some(NexradEvent::FetchComplete)));
    assert!(matches!(step, FrameStep::Finish));
    assert_eq!(fetch.phase, FetchPhase::Finished);
}

#[test]
fn a_fetch_of_nothing_is_complete() {
    let mut client = NexradClient::new();
    let range = TimeRange { start: at(3000), end: at(0) };
    let mut fetch = client.fetch_frames(&range);
    let (event, step) = fetch.step(FrameReply::Started);
    assert!(matches!(event, Some(NexradEvent::FetchComplete)));
    assert!(matches!(step, FrameStep::Finish));
    assert!(fetch.fetched);
    client.finish(10 * SECOND, fetch.fetched);
    assert!(!client.needs_refresh(70 * SECOND - 1) && client.needs_refresh(70 * SECOND));
}
