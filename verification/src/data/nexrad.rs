//! NEXRAD composites: CONUS-wide base reflectivity, one picture every five
//! minutes, published by the Iowa Environmental Mesonet.

#[allow(unused_imports)]
use crate::binary::one;
use crate::binary::Binary64;
#[allow(unused_imports)]
use crate::clock::{elapsed, formatted, MIN_SECS};
use crate::clock::{
    add_minutes, duration_trunc, format_utc, nanos_since, Timestamp, MAX_SECS, NANOS,
};
#[allow(unused_imports)]
use crate::data::decoded_image;
use crate::data::{load_raster, place_raster, GeoBounds, GeoImage};
use crate::http::status_text;
#[allow(unused_imports)]
use crate::http::{is_success, status_line};
use vstd::arithmetic::div_mod::{
    lemma_add_mod_noop, lemma_div_multiples_vanish, lemma_fundamental_div_mod,
    lemma_mod_add_multiples_vanish, lemma_mod_bound, lemma_mod_multiples_basic,
    lemma_mod_self_0, lemma_mod_twice, lemma_small_mod,
};
use vstd::arithmetic::mul::lemma_mul_is_commutative;
use vstd::arithmetic::power2::{lemma2_to64_rest, lemma_pow2_adds, pow2};
use vstd::prelude::*;
use vstd::string::*;

verus! {

/// Minutes between two composites.
pub const FRAME_INTERVAL_MINUTES: i64 = 5;

/// The time window the user wants to load as a radar loop.
#[derive(Debug, Clone, Copy)]
pub struct TimeRange {
    pub start: Timestamp,
    pub end: Timestamp,
}

/// The second of the `i`-th frame of a loop whose first frame is `first`: the
/// frames are five minutes apart.
pub open spec fn frame_secs(first: Timestamp, i: int) -> int {
    first.secs + 300 * i
}

/// The nanoseconds of the `i`-th frame of a loop whose first frame is `first`.
pub open spec fn frame_nanos(first: Timestamp, i: int) -> u32 {
    if i == 0 {
        first.nanos
    } else {
        first.plain_nanos()
    }
}

/// The `i`-th frame of a loop whose first frame is `first`.
pub open spec fn frame_time(first: Timestamp, i: int) -> Timestamp {
    Timestamp { secs: frame_secs(first, i) as i64, nanos: frame_nanos(first, i) }
}

/// The first second on a five-minute boundary that is not before `at`.
pub open spec fn boundary_from(at: Timestamp) -> int {
    let whole = if at.nanos > 0 {
        at.secs + 1
    } else {
        at.secs as int
    };
    (whole + 299) / 300 * 300
}

impl TimeRange {
    /// The first frame: the first five-minute boundary at or after the start.
    /// A start whose nanoseconds cannot be counted is itself the first frame.
    pub open spec fn first_frame(self) -> Timestamp {
        if self.start.stamp_fits() {
            Timestamp { secs: boundary_from(self.start) as i64, nanos: 0 }
        } else {
            self.start
        }
    }

    /// Frame `i` lies in the window.
    pub open spec fn has_frame(self, i: int) -> bool {
        let first = self.first_frame();
        i >= 0 && (frame_secs(first, i) < self.end.secs || (frame_secs(first, i) == self.end.secs
            && frame_nanos(first, i) <= self.end.nanos))
    }

    /// The window lies in the calendar, and so does the instant five minutes
    /// after each of its frames.
    pub open spec fn wf(self) -> bool {
        &&& self.start.valid()
        &&& self.end.valid()
        &&& forall|i: int| #[trigger]
            self.has_frame(i) ==> frame_secs(self.first_frame(), i + 1) <= MAX_SECS
    }

    /// The frames of the window, oldest first.
    pub open spec fn is_frames(self, frames: Seq<Timestamp>) -> bool {
        &&& forall|i: int|
            0 <= i < frames.len() ==> #[trigger] frames[i] == frame_time(self.first_frame(), i)
                && self.has_frame(i)
        &&& !self.has_frame(frames.len() as int)
    }

    /// The first frame.
    fn first(&self) -> (r: Timestamp)
        requires
            self.start.valid(),
        ensures
            r == self.first_frame(),
            r.valid(),
    {
        match duration_trunc(self.start, FRAME_INTERVAL_MINUTES) {
            None => self.start,
            Some(down) => {
                proof {
                    lemma_boundary_from(self.start);
                    lemma_truncated_boundary(self.start);
                }
                if down.nanos >= NANOS {
                    Timestamp { secs: down.secs + 1, nanos: 0 }
                } else if down.lt(&self.start) {
                    add_minutes(down, FRAME_INTERVAL_MINUTES)
                } else {
                    down
                }
            },
        }
    }

    /// Whether the frames of the window, and the instants five minutes after
    /// them, lie in the calendar.
    pub fn fits(&self) -> (r: bool)
        requires
            self.start.valid(),
            self.end.valid(),
        ensures
            r == self.wf(),
    {
        let first: Timestamp = self.first();
        // The last frame of the calendar, if the window went on that far.
        let steps: i64 = (MAX_SECS - first.secs) / 300;
        let nanos: u32 = if steps > 0 && first.nanos >= NANOS {
            first.nanos - NANOS
        } else {
            first.nanos
        };
        let last = Timestamp { secs: first.secs + 300 * steps, nanos };
        proof {
            let k = steps as int;
            assert(frame_secs(first, k) == last.secs && frame_nanos(first, k) == last.nanos);
            if self.has_frame(k) {
                assert(frame_secs(first, k + 1) > MAX_SECS);
            } else {
                assert forall|i: int| #[trigger] self.has_frame(i) implies frame_secs(
                    first,
                    i + 1,
                ) <= MAX_SECS by {
                    assert(i < k);
                }
            }
        }
        self.end.lt(&last)
    }

    /// Every five-minute timestamp in the window, oldest first. From a start
    /// whose nanoseconds cannot be counted, they are five minutes apart.
    pub fn frames(&self) -> (r: Vec<Timestamp>)
        requires
            self.wf(),
        ensures
            self.is_frames(r@),
            self.start.stamp_fits() ==> forall|at: Timestamp|
                at.valid() ==> (#[trigger] r@.contains(at) <==> !at.is_leap() && at.stamp()
                    % 300_000_000_000 == 0 && !at.before(self.start) && !self.end.before(at)),
    {
        let first: Timestamp = self.first();
        let mut at: Timestamp = first;
        let mut frames: Vec<Timestamp> = Vec::new();
        while !self.end.lt(&at)
            invariant
                self.wf(),
                first == self.first_frame(),
                first.valid(),
                frame_secs(first, frames@.len() as int) <= MAX_SECS,
                at == frame_time(first, frames@.len() as int),
                at.valid(),
                forall|i: int|
                    0 <= i < frames@.len() ==> #[trigger] frames@[i] == frame_time(first, i)
                        && self.has_frame(i),
            decreases self.end.secs + 300 - at.secs,
        {
            let ghost i = frames@.len() as int;
            assert(self.has_frame(i));
            frames.push(at);
            at = add_minutes(at, FRAME_INTERVAL_MINUTES);
        }
        assert(!self.has_frame(frames@.len() as int));
        assert(self.is_frames(frames@));
        proof {
            if self.start.stamp_fits() {
                assert forall|at: Timestamp| at.valid() implies (#[trigger] frames@.contains(at)
                    <==> !at.is_leap() && at.stamp() % 300_000_000_000 == 0 && !at.before(
                    self.start,
                ) && !self.end.before(at)) by {
                    frames_are_the_boundaries(*self, frames@, at);
                }
            }
        }
        frames
    }
}

/// The boundary is the first one: a multiple of five minutes, less than five
/// minutes after the instant.
proof fn lemma_boundary_from(at: Timestamp)
    requires
        at.valid(),
        at.stamp_fits(),
    ensures
        boundary_from(at) % 300 == 0,
        at.secs <= boundary_from(at) <= at.secs + 300,
        MIN_SECS <= boundary_from(at) <= MAX_SECS,
        at.nanos > 0 ==> at.secs < boundary_from(at),
        at.nanos == 0 ==> boundary_from(at) < at.secs + 300,
{
}

/// How the boundary before an instant leads to the first one that is not before
/// it.
proof fn lemma_truncated_boundary(at: Timestamp)
    requires
        at.valid(),
        at.stamp_fits(),
    ensures
        at.truncated(5).valid(),
        at.truncated(5).is_leap() ==> boundary_from(at) == at.truncated(5).secs + 1,
        !at.truncated(5).is_leap() ==> {
            let down = at.truncated(5);
            &&& down.nanos == 0
            &&& boundary_from(at) == if down.before(at) {
                down.secs + 300
            } else {
                down.secs as int
            }
        },
{
    lemma_truncated(at, 5);
    lemma_boundary_from(at);
    let down = at.truncated(5);
    let k = down.stamp() / 300_000_000_000;
    assert(down.stamp() == 300_000_000_000 * k);
    if down.is_leap() {
        assert(down.secs + 1 == 300 * k);
    } else {
        assert(down.nanos == 0);
        assert(down.secs == 300 * k);
        assert(300 * k * 1_000_000_000 <= at.stamp() < (300 * k + 300) * 1_000_000_000);
        if at.is_leap() {
            assert(300 * k < at.secs + 1 < 300 * k + 300);
            assert((at.secs + 1 + 299) / 300 == k + 1);
        } else if at.nanos > 0 {
            assert(300 * k <= at.secs < 300 * k + 300);
            assert((at.secs + 1 + 299) / 300 == k + 1);
        } else if at.secs == 300 * k {
            assert((at.secs + 299) / 300 == k);
        } else {
            assert((at.secs + 299) / 300 == k + 1);
        }
    }
}

/// A window whose end is more than five minutes before the end of the calendar
/// can be walked through.
pub proof fn ordinary_windows_fit(range: TimeRange)
    requires
        range.start.valid(),
        range.end.valid(),
        range.end.secs + 300 <= MAX_SECS,
    ensures
        range.wf(),
{
}

/// The frames of a window are determined by it.
pub proof fn frames_are_unique(range: TimeRange, a: Seq<Timestamp>, b: Seq<Timestamp>)
    requires
        range.is_frames(a),
        range.is_frames(b),
    ensures
        a == b,
{
    if a.len() < b.len() {
        assert(b[a.len() as int] == frame_time(range.first_frame(), a.len() as int));
    }
    if b.len() < a.len() {
        assert(a[b.len() as int] == frame_time(range.first_frame(), b.len() as int));
    }
    assert(a =~= b);
}

/// Later frames are later in time, and any two lie a multiple of five minutes
/// apart, unless the first is a leap second.
pub proof fn frames_are_evenly_spaced(range: TimeRange, frames: Seq<Timestamp>, i: int, j: int)
    requires
        range.wf(),
        range.is_frames(frames),
        0 <= i < j < frames.len(),
    ensures
        frames[i].before(frames[j]),
        !range.first_frame().is_leap() ==> frames[j].stamp() - frames[i].stamp() == (j - i)
            * 300_000_000_000,
{
    lemma_frames_valid(range, frames);
    assert(frames[i] == frame_time(range.first_frame(), i));
    assert(frames[j] == frame_time(range.first_frame(), j));
}

/// No frame lies before the window or after it, and the first one comes less
/// than five minutes after its start.
pub proof fn frames_lie_in_the_window(range: TimeRange, frames: Seq<Timestamp>, i: int)
    requires
        range.wf(),
        range.is_frames(frames),
        0 <= i < frames.len(),
    ensures
        !frames[i].before(range.start),
        !range.end.before(frames[i]),
        frames[0].stamp() - range.start.stamp() < 300_000_000_000,
{
    lemma_frames_valid(range, frames);
    assert(frames[i] == frame_time(range.first_frame(), i));
    assert(frames[0] == frame_time(range.first_frame(), 0));
    if range.start.stamp_fits() {
        lemma_boundary_from(range.start);
    }
}

/// The frames of a window are the five-minute boundaries in it, and nothing
/// else.
pub proof fn frames_are_the_boundaries(range: TimeRange, frames: Seq<Timestamp>, at: Timestamp)
    requires
        range.wf(),
        range.is_frames(frames),
        range.start.stamp_fits(),
        at.valid(),
    ensures
        frames.contains(at) <==> !at.is_leap() && at.stamp() % 300_000_000_000 == 0 && !at.before(
            range.start,
        ) && !range.end.before(at),
{
    let first = range.first_frame();
    lemma_boundary_from(range.start);
    assert(first.nanos == 0 && first.secs as int % 300 == 0);
    if frames.contains(at) {
        let i = choose|i: int| 0 <= i < frames.len() && frames[i] == at;
        assert(frames[i] == frame_time(first, i));
        assert(range.has_frame(i));
        assert(at.secs as int % 300 == 0);
        lemma_boundary_stamp(at);
    }
    if !at.is_leap() && at.stamp() % 300_000_000_000 == 0 && !at.before(range.start)
        && !range.end.before(at) {
        lemma_boundary_stamp(at);
        assert(at.secs >= first.secs);
        let i = (at.secs - first.secs) / 300;
        assert(at.secs == frame_secs(first, i));
        assert(range.has_frame(i));
        if i >= frames.len() {
            assert(range.has_frame(frames.len() as int));
        }
        assert(frames[i] == frame_time(first, i));
        assert(frames[i] == at);
    }
}

/// An instant is on a five-minute boundary if its second is and it has no
/// nanoseconds.
proof fn lemma_boundary_stamp(at: Timestamp)
    requires
        !at.is_leap(),
    ensures
        at.stamp() % 300_000_000_000 == 0 <==> at.nanos == 0 && at.secs as int % 300 == 0,
{
    let q = at.stamp() / 300_000_000_000;
    if at.stamp() % 300_000_000_000 == 0 {
        assert(at.stamp() == 300_000_000_000 * q);
        assert(at.nanos == 1_000_000_000 * (300 * q - at.secs));
        assert(at.secs == 300 * q);
    }
    if at.nanos == 0 && at.secs as int % 300 == 0 {
        let k = at.secs as int / 300;
        assert(at.stamp() == 300_000_000_000 * k);
    }
}

/// Truncation stays in the calendar, goes back by less than the interval, and
/// lands on a multiple of it.
proof fn lemma_truncated(at: Timestamp, minutes: int)
    requires
        at.valid(),
        at.stamp_fits(),
        0 < minutes,
        minutes * 60_000_000_000 <= i64::MAX,
    ensures
        at.truncated(minutes).valid(),
        at.truncated(minutes).stamp() == at.stamp() - at.stamp() % (minutes * 60_000_000_000),
        0 <= at.stamp() % (minutes * 60_000_000_000) < minutes * 60_000_000_000,
        at.truncated(minutes).stamp() % (minutes * 60_000_000_000) == 0,
        !at.before(at.truncated(minutes)),
{
    let span = minutes * 60_000_000_000;
    let q = at.stamp() / span;
    let down = at.stamp() - at.stamp() % span;
    lemma_fundamental_div_mod(at.stamp(), span);
    lemma_mod_bound(at.stamp(), span);
    assert(down == span * q);
    assert(span * q == (minutes * 60 * q) * 1_000_000_000) by (nonlinear_arith)
        requires
            span == minutes * 60_000_000_000,
    ;
    lemma_mod_multiples_basic(q, span);
    lemma_mul_is_commutative(span, q);
    assert(down / 1_000_000_000 == minutes * 60 * q) by {
        lemma_div_multiples_vanish(minutes * 60 * q, 1_000_000_000);
        lemma_mul_is_commutative(minutes * 60 * q, 1_000_000_000);
    }
    assert(down % 1_000_000_000 == 0) by {
        lemma_mod_multiples_basic(minutes * 60 * q, 1_000_000_000);
    }
}

/// Where the composite of a date and time is published.
pub open spec fn composite_path(
    year: Seq<char>,
    month: Seq<char>,
    day: Seq<char>,
    hour: Seq<char>,
    minute: Seq<char>,
) -> Seq<char> {
    "https://mesonet.agron.iastate.edu/archive/data/"@ + year + "/"@ + month + "/"@ + day
        + "/GIS/uscomp/n0r_"@ + year + month + day + hour + minute + ".png"@
}

/// The URL of a composite, from the fields of its date and time.
pub fn composite_url(year: &str, month: &str, day: &str, hour: &str, minute: &str) -> (r: String)
    ensures
        r@ == composite_path(year@, month@, day@, hour@, minute@),
        r@ == "https://mesonet.agron.iastate.edu/archive/data/"@ + year@ + "/"@ + month@ + "/"@
            + day@ + "/GIS/uscomp/n0r_"@ + year@ + month@ + day@ + hour@ + minute@ + ".png"@,
{
    let mut r = "https://mesonet.agron.iastate.edu/archive/data/".to_owned();
    r.append(year);
    r.append("/");
    r.append(month);
    r.append("/");
    r.append(day);
    r.append("/GIS/uscomp/n0r_");
    r.append(year);
    r.append(month);
    r.append(day);
    r.append(hour);
    r.append(minute);
    r.append(".png");
    r
}

/// The URL of the composite for `at`.
pub open spec fn composite_url_at(at: Timestamp) -> Seq<char> {
    composite_path(
        formatted(at.secs, at.nanos, "%Y"@),
        formatted(at.secs, at.nanos, "%m"@),
        formatted(at.secs, at.nanos, "%d"@),
        formatted(at.secs, at.nanos, "%H"@),
        formatted(at.secs, at.nanos, "%M"@),
    )
}

/// The URL of the composite for `at`.
pub fn iem_composite_url(at: Timestamp) -> (r: String)
    requires
        at.valid(),
    ensures
        r@ == composite_url_at(at),
        r@ == "https://mesonet.agron.iastate.edu/archive/data/"@ + formatted(
            at.secs,
            at.nanos,
            "%Y"@,
        ) + "/"@ + formatted(at.secs, at.nanos, "%m"@) + "/"@ + formatted(
            at.secs,
            at.nanos,
            "%d"@,
        ) + "/GIS/uscomp/n0r_"@ + formatted(at.secs, at.nanos, "%Y"@) + formatted(
            at.secs,
            at.nanos,
            "%m"@,
        ) + formatted(at.secs, at.nanos, "%d"@) + formatted(at.secs, at.nanos, "%H"@) + formatted(
            at.secs,
            at.nanos,
            "%M"@,
        ) + ".png"@,
{
    composite_url(
        format_utc(at, "%Y").as_str(),
        format_utc(at, "%m").as_str(),
        format_utc(at, "%d").as_str(),
        format_utc(at, "%H").as_str(),
        format_utc(at, "%M").as_str(),
    )
}

/// Known geographic extent of the composites.
pub open spec fn conus_bounds() -> GeoBounds {
    GeoBounds {
        min_lon: Binary64 { bits: 0xc05f_8000_0000_0000 },
        min_lat: Binary64 { bits: 0x4037_0000_0000_0000 },
        max_lon: Binary64 { bits: 0xc050_8000_0000_0000 },
        max_lat: Binary64 { bits: 0x4049_0000_0000_0000 },
    }
}

/// Known geographic extent of the composites.
pub fn nexrad_conus_bounds() -> (r: GeoBounds)
    ensures
        r == conus_bounds(),
{
    GeoBounds {
        min_lon: Binary64 { bits: 0xc05f_8000_0000_0000 },
        min_lat: Binary64 { bits: 0x4037_0000_0000_0000 },
        max_lon: Binary64 { bits: 0xc050_8000_0000_0000 },
        max_lat: Binary64 { bits: 0x4049_0000_0000_0000 },
    }
}

/// The composites reach from 126 to 66 degrees west and from 23 to 50 degrees
/// north.
pub proof fn conus_bounds_in_degrees()
    ensures
        conus_bounds().is_numeric(),
        conus_bounds().min_lon.value() == -126 * one(),
        conus_bounds().min_lat.value() == 23 * one(),
        conus_bounds().max_lon.value() == -66 * one(),
        conus_bounds().max_lat.value() == 50 * one(),
{
    lemma2_to64_rest();
    lemma_pow2_adds(46, 1028);
    lemma_pow2_adds(48, 1026);
    lemma_pow2_adds(47, 1027);
    assert((126 * pow2(46)) * pow2(1028) == 126 * one()) by (nonlinear_arith)
        requires
            one() == pow2(46) * pow2(1028),
    ;
    assert((66 * pow2(46)) * pow2(1028) == 66 * one()) by (nonlinear_arith)
        requires
            one() == pow2(46) * pow2(1028),
    ;
    assert((23 * pow2(48)) * pow2(1026) == 23 * one()) by (nonlinear_arith)
        requires
            one() == pow2(48) * pow2(1026),
    ;
    assert((50 * pow2(47)) * pow2(1027) == 50 * one()) by (nonlinear_arith)
        requires
            one() == pow2(47) * pow2(1027),
    ;
}

/// Whether a reply with this status carries a composite, and else why not.
pub fn check_status(code: u16, url: &str) -> (r: Result<(), String>)
    requires
        100 <= code <= 999,
    ensures
        match r {
            Ok(()) => is_success(code),
            Err(e) => !is_success(code) && e@ == if code == 404 {
                "frame not yet available (404)"@
            } else {
                "HTTP "@ + status_line(code) + " for "@ + url@
            },
        },
{
    if code == 404 {
        return Err("frame not yet available (404)".to_owned());
    }
    if 200 <= code && code < 300 {
        return Ok(());
    }
    let mut e = "HTTP ".to_owned();
    e.append(status_text(code).as_str());
    e.append(" for ");
    e.append(url);
    Err(e)
}

/// What a composite is reported as when its request cannot be sent.
pub fn request_error(url: &str) -> (r: String)
    ensures
        r@ == "HTTP GET "@ + url@,
{
    let mut e = "HTTP GET ".to_owned();
    e.append(url);
    e
}

/// Decodes a downloaded composite.
pub fn decode_png_to_geo_image(bytes: &[u8]) -> (r: Result<GeoImage, String>)
    ensures
        match r {
            Ok(image) => decoded_image(bytes@) == Ok::<(Seq<u8>, u32, u32), Seq<char>>(
                image.content(),
            ) && image.bounds == conus_bounds() && image.wf(),
            Err(e) => decoded_image(bytes@) is Err && e@ == "decoding PNG"@,
        },
{
    place_raster(load_raster(bytes), nexrad_conus_bounds(), "decoding PNG")
}

/// What came of the request for a composite. `code` is the status of the reply,
/// if there was one, and `body` what was downloaded, if that went well.
pub fn received_frame(code: Option<u16>, body: Option<&[u8]>, url: &str) -> (r: Result<
    GeoImage,
    String,
>)
    requires
        code matches Some(c) ==> 100 <= c <= 999,
    ensures
        match r {
            Ok(image) => {
                &&& code matches Some(c) && is_success(c)
                &&& body matches Some(bytes) && decoded_image(bytes@) == Ok::<
                    (Seq<u8>, u32, u32),
                    Seq<char>,
                >(image.content())
                &&& image.bounds == conus_bounds()
                &&& image.wf()
            },
            Err(e) => match code {
                None => e@ == "HTTP GET "@ + url@,
                Some(c) if c == 404 => e@ == "frame not yet available (404)"@,
                Some(c) if !is_success(c) => e@ == "HTTP "@ + status_line(c) + " for "@ + url@,
                Some(_) => match body {
                    None => e@ == "reading response body"@,
                    Some(bytes) => decoded_image(bytes@) is Err && e@ == "decoding PNG"@,
                },
            },
        },
{
    match code {
        None => Err(request_error(url)),
        Some(c) => match check_status(c, url) {
            Err(e) => Err(e),
            Ok(()) => match body {
                None => Err("reading response body".to_owned()),
                Some(bytes) => decode_png_to_geo_image(bytes),
            },
        },
    }
}

/// One composite of the loop.
pub struct RadarFrame {
    pub timestamp: Timestamp,
    pub image: GeoImage,
}

impl RadarFrame {
    /// The time lies in the calendar, and the image has all its pixels.
    pub open spec fn wf(self) -> bool {
        self.timestamp.valid() && self.image.wf()
    }
}

/// Stores all fetched radar frames and tracks which one is "current".
pub struct RadarFrameStore {
    /// Frames sorted oldest to newest.
    pub frames: Vec<RadarFrame>,
    pub current_index: usize,
}

/// How many frames at the front are older than `at`.
pub open spec fn older_frames(frames: Seq<RadarFrame>, at: Timestamp) -> int
    decreases frames.len(),
{
    if frames.len() > 0 && frames[0].timestamp.before(at) {
        1 + older_frames(frames.drop_first(), at)
    } else {
        0
    }
}

/// The frames after one arrived: it takes the place of the frame with its
/// timestamp, or goes in between the older and the newer ones.
pub open spec fn with_frame(frames: Seq<RadarFrame>, frame: RadarFrame) -> Seq<RadarFrame> {
    let p = older_frames(frames, frame.timestamp);
    if p < frames.len() && frames[p].timestamp == frame.timestamp {
        frames.update(p, frame)
    } else {
        frames.insert(p, frame)
    }
}

/// Each frame is older than the next.
pub open spec fn is_sorted(frames: Seq<RadarFrame>) -> bool {
    forall|i: int, j: int|
        0 <= i < j < frames.len() ==> (#[trigger] frames[i]).timestamp.before(
            (#[trigger] frames[j]).timestamp,
        )
}

/// In sorted frames, the older ones are at the front.
pub proof fn lemma_older_frames(frames: Seq<RadarFrame>, at: Timestamp)
    requires
        is_sorted(frames),
    ensures
        ({
            let p = older_frames(frames, at);
            &&& 0 <= p <= frames.len()
            &&& forall|i: int| 0 <= i < p ==> (#[trigger] frames[i]).timestamp.before(at)
            &&& forall|i: int|
                p <= i < frames.len() ==> !(#[trigger] frames[i]).timestamp.before(at)
        }),
    decreases frames.len(),
{
    if frames.len() > 0 && frames[0].timestamp.before(at) {
        let rest = frames.drop_first();
        lemma_older_frames(rest, at);
        let p = older_frames(frames, at);
        assert forall|i: int| 0 <= i < p implies (#[trigger] frames[i]).timestamp.before(at) by {
            if i > 0 {
                assert(rest[i - 1] == frames[i]);
            }
        }
        assert forall|i: int| p <= i < frames.len() implies !(
        #[trigger] frames[i]).timestamp.before(at) by {
            assert(rest[i - 1] == frames[i]);
        }
    }
}

impl RadarFrameStore {
    pub open spec fn sorted(self) -> bool {
        is_sorted(self.frames@)
    }

    /// The current frame is one of the frames, as soon as there is one.
    pub open spec fn has_cursor(self) -> bool {
        self.current_index < self.frames@.len() || (self.frames@.len() == 0 && self.current_index
            == 0)
    }

    /// What every operation of the store keeps.
    pub open spec fn wf(self) -> bool {
        self.sorted() && self.has_cursor()
    }

    /// Adds a frame, or replaces the image of the frame with this timestamp.
    /// The position of the current frame stays as it is.
    pub fn insert(&mut self, timestamp: Timestamp, image: GeoImage)
        requires
            old(self).sorted(),
        ensures
            final(self).frames@ == with_frame(
                old(self).frames@,
                (RadarFrame { timestamp, image }),
            ),
            final(self).current_index == old(self).current_index,
            final(self).frames@.contains((RadarFrame { timestamp, image })),
            forall|f: RadarFrame|
                f.timestamp != timestamp ==> (#[trigger] final(self).frames@.contains(f) <==> old(
                    self,
                ).frames@.contains(f)),
            forall|i: int, j: int|
                0 <= i < j < final(self).frames@.len() ==> {
                    let (a, b) = (
                        (#[trigger] final(self).frames@[i]).timestamp,
                        (#[trigger] final(self).frames@[j]).timestamp,
                    );
                    a.secs < b.secs || (a.secs == b.secs && a.nanos < b.nanos)
                },
            final(self).sorted(),
            old(self).wf() ==> final(self).wf(),
    {
        let n: usize = self.frames.len();
        let mut p: usize = 0;
        while p < n && self.frames[p].timestamp.lt(&timestamp)
            invariant
                p <= n == self.frames@.len(),
                self.frames@ == old(self).frames@,
                self.current_index == old(self).current_index,
                forall|i: int| 0 <= i < p ==> (#[trigger] self.frames@[i]).timestamp.before(timestamp),
            decreases n - p,
        {
            p += 1;
        }
        proof {
            lemma_older_frames(self.frames@, timestamp);
            let q = older_frames(self.frames@, timestamp);
            if p < q {
                assert(self.frames@[p as int].timestamp.before(timestamp));
            }
            if q < p {
                assert(self.frames@[q].timestamp.before(timestamp));
            }
        }
        let frame = RadarFrame { timestamp, image };
        proof {
            assert forall|f: RadarFrame| f.timestamp != timestamp implies (
            #[trigger] with_frame(self.frames@, frame).contains(f) <==> self.frames@.contains(f)) by {
                insert_keeps_the_others(self.frames@, frame, f);
            }
            insert_keeps_the_others(self.frames@, frame, frame);
        }
        if p < n && self.frames[p].timestamp == timestamp {
            self.frames[p] = frame;
        } else {
            self.frames.insert(p, frame);
        }
    }

    pub fn len(&self) -> (r: usize)
        ensures
            r == self.frames@.len(),
    {
        self.frames.len()
    }

    pub fn is_empty(&self) -> (r: bool)
        ensures
            r == (self.frames@.len() == 0),
    {
        self.frames.len() == 0
    }

    /// The frame at a position, where there is one.
    pub open spec fn frame_at(&self, index: int) -> Option<&RadarFrame> {
        if 0 <= index < self.frames@.len() {
            Some(&self.frames@[index])
        } else {
            None
        }
    }

    pub fn current(&self) -> (r: Option<&RadarFrame>)
        ensures
            r == self.frame_at(self.current_index as int),
            r is Some <==> self.current_index < self.frames@.len(),
            r matches Some(frame) ==> *frame == self.frames@[self.current_index as int],
    {
        if self.current_index < self.frames.len() {
            Some(&self.frames[self.current_index])
        } else {
            None
        }
    }

    /// Moves on to the next frame, from the last one to the first. Without
    /// frames nothing changes and the answer is false.
    pub fn advance(&mut self) -> (r: bool)
        requires
            old(self).frames@.len() > 0 ==> old(self).current_index < usize::MAX,
        ensures
            r == (old(self).frames@.len() > 0),
            final(self).frames@ == old(self).frames@,
            final(self).current_index as int == if r {
                following(old(self).current_index as int, old(self).frames@.len() as int)
            } else {
                old(self).current_index as int
            },
            r ==> final(self).current_index as int == (old(self).current_index + 1)
                % old(self).frames@.len() as int,
            old(self).wf() ==> final(self).wf(),
    {
        if self.frames.len() == 0 {
            return false;
        }
        self.current_index = (self.current_index + 1) % self.frames.len();
        true
    }

    pub open spec fn times(self) -> Seq<Timestamp> {
        self.frames@.map_values(|f: RadarFrame| f.timestamp)
    }

    /// The timestamps of the frames, oldest first.
    pub fn timestamps(&self) -> (r: Vec<Timestamp>)
        ensures
            r@ == self.times(),
            r@.len() == self.frames@.len(),
            forall|i: int| 0 <= i < r@.len() ==> #[trigger] r@[i] == self.frames@[i].timestamp,
    {
        let n: usize = self.frames.len();
        let mut r: Vec<Timestamp> = Vec::new();
        for i in 0..n
            invariant
                n == self.frames@.len(),
                r@.len() == i,
                forall|j: int| 0 <= j < i ==> #[trigger] r@[j] == self.frames@[j].timestamp,
        {
            r.push(self.frames[i].timestamp);
        }
        assert(r@ =~= self.times());
        r
    }
}

impl Default for RadarFrameStore {
    fn default() -> (r: RadarFrameStore)
        ensures
            r.frames@.len() == 0,
            r.current_index == 0,
            r.wf(),
    {
        RadarFrameStore { frames: Vec::new(), current_index: 0 }
    }
}

/// The position after `index` in a loop of `n` frames.
pub open spec fn following(index: int, n: int) -> int {
    (index + 1) % n
}

/// The position before `index` in a loop of `n` frames.
pub open spec fn preceding(index: int, n: int) -> int {
    (index + n - 1) % n
}

/// The image stored for `at`.
pub open spec fn image_at(frames: Seq<RadarFrame>, at: Timestamp) -> Option<GeoImage> {
    let p = older_frames(frames, at);
    if p < frames.len() && frames[p].timestamp == at {
        Some(frames[p].image)
    } else {
        None
    }
}

/// A frame that was put in can be found under its timestamp, and every other
/// timestamp has the image it had before.
pub proof fn insert_updates_one_image(frames: Seq<RadarFrame>, frame: RadarFrame, at: Timestamp)
    requires
        is_sorted(frames),
    ensures
        is_sorted(with_frame(frames, frame)),
        image_at(with_frame(frames, frame), at) == if at == frame.timestamp {
            Some(frame.image)
        } else {
            image_at(frames, at)
        },
{
    let new = with_frame(frames, frame);
    lemma_older_frames(frames, frame.timestamp);
    assert(is_sorted(new));
    lemma_older_frames(frames, at);
    lemma_older_frames(new, at);
    let p = older_frames(frames, frame.timestamp);
    let q = older_frames(frames, at);
    let r = older_frames(new, at);
    if at == frame.timestamp {
        assert(new[p] == frame);
        lemma_position(new, at, p);
    } else if image_at(frames, at) is Some {
        let k = if q < p || new.len() == frames.len() {
            q
        } else {
            q + 1
        };
        assert(new[k] == frames[q]);
        lemma_position(new, at, k);
    } else if r < new.len() && new[r].timestamp == at {
        assert(r != p);
        let k = if r < p || new.len() == frames.len() {
            r
        } else {
            r - 1
        };
        assert(frames[k] == new[r]);
        lemma_position(frames, at, k);
    }
}

proof fn lemma_position(frames: Seq<RadarFrame>, at: Timestamp, k: int)
    requires
        is_sorted(frames),
        0 <= k < frames.len(),
        frames[k].timestamp == at,
    ensures
        older_frames(frames, at) == k,
{
    lemma_older_frames(frames, at);
    let p = older_frames(frames, at);
    if p < k {
        assert(frames[p].timestamp.before(frames[k].timestamp));
    }
    if k < p {
        assert(frames[k].timestamp.before(at));
    }
}

/// Sorted frames are determined by the images stored for each timestamp.
pub proof fn frames_are_determined(a: Seq<RadarFrame>, b: Seq<RadarFrame>)
    requires
        is_sorted(a),
        is_sorted(b),
        forall|at: Timestamp| image_at(a, at) == image_at(b, at),
    ensures
        a == b,
    decreases a.len(),
{
    if a.len() == 0 || b.len() == 0 {
        if a.len() > 0 {
            lemma_position(a, a[0].timestamp, 0);
            assert(image_at(b, a[0].timestamp) is Some);
        }
        if b.len() > 0 {
            lemma_position(b, b[0].timestamp, 0);
            assert(image_at(a, b[0].timestamp) is Some);
        }
        assert(a =~= b);
    } else {
        let (ta, tb) = (a[0].timestamp, b[0].timestamp);
        lemma_position(a, ta, 0);
        lemma_position(b, tb, 0);
        lemma_older_frames(a, tb);
        lemma_older_frames(b, ta);
        assert(image_at(b, ta) == Some(a[0].image));
        assert(image_at(a, tb) == Some(b[0].image));
        let i = older_frames(b, ta);
        let j = older_frames(a, tb);
        assert(b[i].timestamp == ta && a[j].timestamp == tb);
        if i > 0 {
            assert(tb.before(ta));
            if j > 0 {
                assert(ta.before(tb));
            }
        }
        assert(ta == tb);
        let (ra, rb) = (a.drop_first(), b.drop_first());
        assert forall|at: Timestamp| image_at(ra, at) == image_at(rb, at) by {
            lemma_tail_image(a, at);
            lemma_tail_image(b, at);
        }
        frames_are_determined(ra, rb);
        assert(a =~= seq![a[0]] + ra);
        assert(b =~= seq![b[0]] + rb);
    }
}

proof fn lemma_tail_image(frames: Seq<RadarFrame>, at: Timestamp)
    requires
        is_sorted(frames),
        frames.len() > 0,
    ensures
        is_sorted(frames.drop_first()),
        image_at(frames.drop_first(), at) == if at == frames[0].timestamp {
            None
        } else {
            image_at(frames, at)
        },
{
    let rest = frames.drop_first();
    assert(is_sorted(rest));
    lemma_older_frames(rest, at);
    lemma_older_frames(frames, at);
    let q = older_frames(rest, at);
    if q < rest.len() && rest[q].timestamp == at {
        assert(frames[q + 1] == rest[q]);
        lemma_position(frames, at, q + 1);
        assert(frames[0].timestamp.before(frames[q + 1].timestamp));
    }
    let p = older_frames(frames, at);
    if p < frames.len() && frames[p].timestamp == at && p > 0 {
        assert(rest[p - 1] == frames[p]);
        lemma_position(rest, at, p - 1);
    }
}

/// The order in which two frames arrive does not matter.
pub proof fn inserts_commute(frames: Seq<RadarFrame>, a: RadarFrame, b: RadarFrame)
    requires
        is_sorted(frames),
        a.timestamp != b.timestamp,
    ensures
        with_frame(with_frame(frames, a), b) == with_frame(with_frame(frames, b), a),
{
    let ab = with_frame(with_frame(frames, a), b);
    let ba = with_frame(with_frame(frames, b), a);
    insert_updates_one_image(frames, a, a.timestamp);
    insert_updates_one_image(frames, b, b.timestamp);
    insert_updates_one_image(with_frame(frames, a), b, a.timestamp);
    insert_updates_one_image(with_frame(frames, b), a, b.timestamp);
    assert forall|at: Timestamp| image_at(ab, at) == image_at(ba, at) by {
        insert_updates_one_image(frames, a, at);
        insert_updates_one_image(frames, b, at);
        insert_updates_one_image(with_frame(frames, a), b, at);
        insert_updates_one_image(with_frame(frames, b), a, at);
    }
    frames_are_determined(ab, ba);
}

/// A frame that is not older than the one at position `i` leaves that position
/// to the timestamp it has.
pub proof fn newer_frames_keep_the_current_one(
    frames: Seq<RadarFrame>,
    frame: RadarFrame,
    i: int,
)
    requires
        is_sorted(frames),
        0 <= i < frames.len(),
        !frame.timestamp.before(frames[i].timestamp),
    ensures
        with_frame(frames, frame)[i].timestamp == frames[i].timestamp,
{
    lemma_older_frames(frames, frame.timestamp);
    let p = older_frames(frames, frame.timestamp);
    if p < i {
        assert(frames[p].timestamp.before(frames[i].timestamp));
    }
}

/// Stepping through the whole loop comes back to the frame it started from.
pub proof fn loop_closes(index: int, n: int, steps: int)
    requires
        0 <= index < n,
        0 <= steps,
    ensures
        stepped(index, n, steps) == (index + steps) % n,
        stepped(index, n, n) == index,
{
    lemma_stepped(index, n, steps);
    lemma_stepped(index, n, n);
    lemma_mod_add_multiples_vanish(index, n);
    lemma_small_mod(index as nat, n as nat);
}

/// The position after a number of steps forward.
pub open spec fn stepped(index: int, n: int, steps: int) -> int
    decreases steps,
{
    if steps <= 0 {
        index
    } else {
        following(stepped(index, n, steps - 1), n)
    }
}

proof fn lemma_stepped(index: int, n: int, steps: int)
    requires
        0 <= index < n,
        0 <= steps,
    ensures
        stepped(index, n, steps) == (index + steps) % n,
    decreases steps,
{
    if steps == 0 {
        lemma_small_mod(index as nat, n as nat);
    } else {
        lemma_stepped(index, n, steps - 1);
        lemma_add_mod_noop(index + steps - 1, 1, n);
        lemma_add_mod_noop((index + steps - 1) % n, 1, n);
        lemma_mod_twice(index + steps - 1, n);
    }
}

/// One step back undoes one step forward, and the other way round.
pub proof fn steps_are_inverse(index: int, n: int)
    requires
        0 <= index < n,
    ensures
        preceding(following(index, n), n) == index,
        following(preceding(index, n), n) == index,
        0 <= following(index, n) < n,
        0 <= preceding(index, n) < n,
{
    lemma_small_mod(index as nat, n as nat);
    if index + 1 < n {
        lemma_small_mod((index + 1) as nat, n as nat);
    } else {
        lemma_mod_self_0(n);
    }
    if index > 0 {
        lemma_small_mod((index - 1) as nat, n as nat);
        lemma_mod_add_multiples_vanish(index - 1, n);
    } else {
        lemma_small_mod((n - 1) as nat, n as nat);
        lemma_mod_self_0(n);
    }
    lemma_mod_add_multiples_vanish(index, n);
    lemma_small_mod((n - 1) as nat, n as nat);
}

/// Messages sent from the background fetch task to the UI thread.
pub enum NexradEvent {
    /// A new frame was fetched successfully.
    FrameReady { timestamp: Timestamp, image: GeoImage },
    /// The fetch for a specific timestamp failed (non-fatal).
    FrameError { timestamp: Timestamp, error: String },
    /// All requested frames have been fetched (or attempted).
    FetchComplete,
}

impl NexradEvent {
    /// A frame that is ready has its time and all its pixels.
    pub open spec fn wf(self) -> bool {
        self matches NexradEvent::FrameReady { timestamp, image } ==> timestamp.valid()
            && image.wf()
    }
}

/// Seconds between the end of a successful fetch and the start of the next.
pub const REFRESH_SECS: u64 = 60;

/// Milliseconds to wait between two requests, to be polite to the server.
pub const REQUEST_PAUSE_MILLIS: u64 = 50;

/// Whether a fetch is running, and when the last successful one ended.
pub struct NexradClient {
    pub fetching: bool,
    /// When the last successful fetch ended, in nanoseconds: used to rate-limit
    /// redundant network requests.
    pub last_fetch: Option<u64>,
}

impl NexradClient {
    pub fn new() -> (r: NexradClient)
        ensures
            !r.fetching,
            r.last_fetch is None,
    {
        NexradClient { fetching: false, last_fetch: None }
    }

    pub fn is_fetching(&self) -> (r: bool)
        ensures
            r == self.fetching,
    {
        self.fetching
    }

    /// No fetch is running, and none ended successfully in the last minute.
    pub open spec fn due(self, now: u64) -> bool {
        !self.fetching && (self.last_fetch matches Some(t) ==> elapsed(t, now) / 1_000_000_000
            >= REFRESH_SECS)
    }

    /// Returns true when it's time to re-fetch (respects a 60-second cooldown).
    pub fn needs_refresh(&self, now: u64) -> (r: bool)
        ensures
            r == self.due(now),
            r <==> !self.fetching && (self.last_fetch matches Some(t) ==> now - t
                >= 60_000_000_000),
    {
        if self.fetching {
            return false;
        }
        match self.last_fetch {
            None => true,
            Some(t) => nanos_since(t, now) / 1_000_000_000 >= REFRESH_SECS,
        }
    }

    /// Starts to fetch all radar frames in `range`.
    pub fn fetch_frames(&mut self, range: &TimeRange) -> (r: FrameFetch)
        requires
            range.wf(),
        ensures
            final(self).fetching,
            final(self).last_fetch == old(self).last_fetch,
            range.is_frames(r.timestamps@),
            r@ == ready_fetch(r.timestamps@),
            r.wf(),
    {
        self.fetching = true;
        let timestamps = range.frames();
        proof {
            lemma_frames_valid(*range, timestamps@);
        }
        let fetched = timestamps.len() == 0;
        FrameFetch { timestamps, next: 0, phase: FetchPhase::Ready, fetched }
    }

    /// Notes that a fetch ended at `now`. `fetched` says whether it was
    /// successful.
    pub fn finish(&mut self, now: u64, fetched: bool)
        ensures
            !final(self).fetching,
            final(self).last_fetch == if fetched {
                Some(now)
            } else {
                old(self).last_fetch
            },
    {
        self.fetching = false;
        if fetched {
            self.last_fetch = Some(now);
        }
    }
}

/// A client whose fetch was successful waits out the minute, and is due again
/// after it.
pub proof fn refresh_waits_a_minute(finished: u64, now: u64)
    requires
        now >= finished,
    ensures
        (NexradClient { fetching: false, last_fetch: Some(finished) }).due(now) == (now - finished
            >= 60_000_000_000),
{
}

/// A fetch that failed does not put off the next one: a client that was due
/// when it started is due when it ended.
pub proof fn failed_fetches_do_not_wait(before: NexradClient, after: NexradClient, now: u64, end: u64)
    requires
        before.due(now),
        now <= end,
        !after.fetching,
        after.last_fetch == before.last_fetch,
    ensures
        after.due(end),
{
    if let Some(t) = before.last_fetch {
        assert(elapsed(t, now) <= elapsed(t, end));
    }
}

proof fn lemma_frames_valid(range: TimeRange, frames: Seq<Timestamp>)
    requires
        range.wf(),
        range.is_frames(frames),
    ensures
        forall|i: int| 0 <= i < frames.len() ==> (#[trigger] frames[i]).valid(),
{
    if range.start.stamp_fits() {
        lemma_boundary_from(range.start);
    }
    assert forall|i: int| 0 <= i < frames.len() implies (#[trigger] frames[i]).valid() by {
        assert(frames[i] == frame_time(range.first_frame(), i));
        assert(range.has_frame(i));
    }
}

/// What a fetch waits for.
#[derive(Clone, Copy, PartialEq, Eq, Structural, Debug)]
pub enum FetchPhase {
    /// To be started.
    Ready,
    /// For the reply to the request of the next frame.
    Waiting,
    /// For the pause after that reply.
    Resting,
    /// For nothing: all frames have been attempted.
    Finished,
}

/// What happened to a fetch.
pub enum FrameReply {
    Started,
    Fetched(Result<GeoImage, String>),
    Rested,
}

/// What a fetch asks for next.
pub enum FrameStep {
    /// Get the composite for `timestamp` from `url`.
    Get { timestamp: Timestamp, url: String },
    /// Wait.
    Rest { millis: u64 },
    /// Note that the fetch ended.
    Finish,
}

/// The fetch of the frames of a loop, one after the other.
pub struct FrameFetch {
    pub timestamps: Vec<Timestamp>,
    pub next: usize,
    pub phase: FetchPhase,
    /// The fetch is successful: a frame was ready, or there are none to fetch.
    pub fetched: bool,
}

/// A fetch, for contracts.
pub struct FetchView {
    pub timestamps: Seq<Timestamp>,
    pub next: int,
    pub phase: FetchPhase,
    pub fetched: bool,
}

/// What is sent for one frame.
pub open spec fn frame_event(timestamp: Timestamp, outcome: Result<GeoImage, String>) -> NexradEvent {
    match outcome {
        Ok(image) => NexradEvent::FrameReady { timestamp, image },
        Err(error) => NexradEvent::FrameError { timestamp, error },
    }
}

impl FetchView {
    /// The fetch waits for such a reply.
    pub open spec fn accepts(self, reply: FrameReply) -> bool {
        match reply {
            FrameReply::Started => self.phase == FetchPhase::Ready,
            FrameReply::Fetched(_) => self.phase == FetchPhase::Waiting,
            FrameReply::Rested => self.phase == FetchPhase::Resting,
        }
    }

    /// The fetch at frame `i`: its request, or the end.
    pub open spec fn at(self, i: int) -> FetchView {
        FetchView {
            next: i,
            phase: if i < self.timestamps.len() {
                FetchPhase::Waiting
            } else {
                FetchPhase::Finished
            },
            ..self
        }
    }

    /// The fetch after a reply.
    pub open spec fn after(self, reply: FrameReply) -> FetchView {
        match reply {
            FrameReply::Started => self.at(self.next),
            FrameReply::Fetched(outcome) => FetchView {
                phase: FetchPhase::Resting,
                fetched: self.fetched || outcome is Ok,
                ..self
            },
            FrameReply::Rested => self.at(self.next + 1),
        }
    }

    /// What is sent to the UI upon a reply.
    pub open spec fn sends(self, reply: FrameReply) -> Option<NexradEvent> {
        match reply {
            FrameReply::Fetched(outcome) => Some(frame_event(self.timestamps[self.next], outcome)),
            _ => if self.after(reply).phase == FetchPhase::Finished {
                Some(NexradEvent::FetchComplete)
            } else {
                None
            },
        }
    }

    /// What a fetch that waits asks for.
    pub open spec fn wants(self, step: FrameStep) -> bool {
        match self.phase {
            FetchPhase::Ready => false,
            FetchPhase::Waiting => step matches FrameStep::Get { timestamp, url } && timestamp
                == self.timestamps[self.next] && url@ == composite_url_at(timestamp),
            FetchPhase::Resting => step matches FrameStep::Rest { millis } && millis
                == REQUEST_PAUSE_MILLIS,
            FetchPhase::Finished => step is Finish,
        }
    }
}

impl View for FrameFetch {
    type V = FetchView;

    open spec fn view(&self) -> FetchView {
        FetchView {
            timestamps: self.timestamps@,
            next: self.next as int,
            phase: self.phase,
            fetched: self.fetched,
        }
    }
}

impl FrameFetch {
    pub open spec fn wf(self) -> bool {
        &&& self.next <= self.timestamps@.len()
        &&& self.phase == FetchPhase::Waiting || self.phase == FetchPhase::Resting ==> self.next
            < self.timestamps@.len()
        &&& forall|i: int|
            0 <= i < self.timestamps@.len() ==> (#[trigger] self.timestamps@[i]).valid()
    }

    /// Takes note of a reply: what to send to the UI, and what to do next.
    pub fn step(&mut self, reply: FrameReply) -> (r: (Option<NexradEvent>, FrameStep))
        requires
            old(self).wf(),
            old(self)@.accepts(reply),
        ensures
            final(self).wf(),
            final(self)@ == old(self)@.after(reply),
            r.0 == old(self)@.sends(reply),
            final(self)@.wants(r.1),
            (reply matches FrameReply::Fetched(Ok(image)) ==> image.wf()) ==> (r.0 matches Some(e)
                ==> e.wf()),
    {
        match reply {
            FrameReply::Started => self.open(),
            FrameReply::Fetched(outcome) => {
                let timestamp = self.timestamps[self.next];
                self.phase = FetchPhase::Resting;
                let event = match outcome {
                    Ok(image) => {
                        self.fetched = true;
                        NexradEvent::FrameReady { timestamp, image }
                    },
                    Err(error) => NexradEvent::FrameError { timestamp, error },
                };
                (Some(event), FrameStep::Rest { millis: REQUEST_PAUSE_MILLIS })
            },
            FrameReply::Rested => {
                assert(self.next < self.timestamps.len());
                self.next = self.next + 1;
                self.open()
            },
        }
    }

    /// Goes to the next frame, or to the end.
    fn open(&mut self) -> (r: (Option<NexradEvent>, FrameStep))
        requires
            old(self).next <= old(self).timestamps@.len(),
            forall|i: int|
                0 <= i < old(self).timestamps@.len() ==> (
                #[trigger] old(self).timestamps@[i]).valid(),
        ensures
            final(self).wf(),
            final(self)@ == old(self)@.at(old(self).next as int),
            final(self)@.wants(r.1),
            r.0 == if final(self).phase == FetchPhase::Finished {
                Some(NexradEvent::FetchComplete)
            } else {
                None
            },
    {
        if self.next < self.timestamps.len() {
            self.phase = FetchPhase::Waiting;
            let timestamp = self.timestamps[self.next];
            (None, FrameStep::Get { timestamp, url: iem_composite_url(timestamp) })
        } else {
            self.phase = FetchPhase::Finished;
            (Some(NexradEvent::FetchComplete), FrameStep::Finish)
        }
    }
}

/// What is sent from here on, when the requests come out like this.
pub open spec fn sent(fetch: FetchView, outcomes: Seq<Result<GeoImage, String>>) -> Seq<NexradEvent>
    decreases outcomes.len(),
{
    if outcomes.len() == 0 {
        Seq::empty()
    } else {
        let rested = fetch.after(FrameReply::Fetched(outcomes[0]));
        let frame = fetch.sends(FrameReply::Fetched(outcomes[0]));
        let end = rested.sends(FrameReply::Rested);
        let rest = sent(rested.after(FrameReply::Rested), outcomes.drop_first());
        seq![frame->0] + (if end is Some {
            seq![end->0]
        } else {
            Seq::empty()
        }) + rest
    }
}

proof fn lemma_sent(
    fetch: FetchView,
    outcomes: Seq<Result<GeoImage, String>>,
)
    requires
        fetch.phase == FetchPhase::Waiting,
        0 <= fetch.next,
        fetch.next + outcomes.len() == fetch.timestamps.len(),
        outcomes.len() > 0,
    ensures
        sent(fetch, outcomes) == Seq::new(
            outcomes.len(),
            |i: int| frame_event(fetch.timestamps[fetch.next + i], outcomes[i]),
        ).push(NexradEvent::FetchComplete),
    decreases outcomes.len(),
{
    let rested = fetch.after(FrameReply::Fetched(outcomes[0]));
    let next = rested.after(FrameReply::Rested);
    let rest = outcomes.drop_first();
    if rest.len() > 0 {
        lemma_sent(next, rest);
    } else {
        assert(sent(next, rest) =~= Seq::<NexradEvent>::empty());
    }
    let all = Seq::new(
        outcomes.len(),
        |i: int| frame_event(fetch.timestamps[fetch.next + i], outcomes[i]),
    ).push(NexradEvent::FetchComplete);
    assert(sent(fetch, outcomes) =~= all);
}

/// A fetch of these frames that is to be started.
pub open spec fn ready_fetch(timestamps: Seq<Timestamp>) -> FetchView {
    FetchView {
        timestamps,
        next: 0,
        phase: FetchPhase::Ready,
        fetched: timestamps.len() == 0,
    }
}

/// Everything a fetch of these frames sends, when the requests come out like
/// this.
pub open spec fn reported(
    timestamps: Seq<Timestamp>,
    outcomes: Seq<Result<GeoImage, String>>,
) -> Seq<NexradEvent> {
    let ready = ready_fetch(timestamps);
    match ready.sends(FrameReply::Started) {
        Some(end) => seq![end],
        None => sent(ready.after(FrameReply::Started), outcomes),
    }
}

/// A fetch reports every frame once, oldest first, whatever its request came
/// to, and then that it is complete.
pub proof fn fetch_reports_every_frame(
    timestamps: Seq<Timestamp>,
    outcomes: Seq<Result<GeoImage, String>>,
)
    requires
        outcomes.len() == timestamps.len(),
    ensures
        reported(timestamps, outcomes) == Seq::new(
            outcomes.len(),
            |i: int| frame_event(timestamps[i], outcomes[i]),
        ).push(NexradEvent::FetchComplete),
{
    let all = Seq::new(
        outcomes.len(),
        |i: int| frame_event(timestamps[i], outcomes[i]),
    ).push(NexradEvent::FetchComplete);
    if outcomes.len() > 0 {
        lemma_sent(ready_fetch(timestamps).after(FrameReply::Started), outcomes);
    }
    assert(reported(timestamps, outcomes) =~= all);
}

/// The fetch after its requests came out like this.
pub open spec fn progressed(fetch: FetchView, outcomes: Seq<Result<GeoImage, String>>) -> FetchView
    decreases outcomes.len(),
{
    if outcomes.len() == 0 {
        fetch
    } else {
        progressed(
            fetch.after(FrameReply::Fetched(outcomes[0])).after(FrameReply::Rested),
            outcomes.drop_first(),
        )
    }
}

proof fn lemma_progressed(fetch: FetchView, outcomes: Seq<Result<GeoImage, String>>)
    ensures
        progressed(fetch, outcomes).fetched <==> fetch.fetched || exists|i: int|
            0 <= i < outcomes.len() && #[trigger] outcomes[i] is Ok,
    decreases outcomes.len(),
{
    if outcomes.len() > 0 {
        let next = fetch.after(FrameReply::Fetched(outcomes[0])).after(FrameReply::Rested);
        let rest = outcomes.drop_first();
        lemma_progressed(next, rest);
        assert forall|i: int| 0 <= i < rest.len() implies rest[i] == #[trigger] outcomes[i + 1] by {
        }
        if exists|i: int| 0 <= i < rest.len() && #[trigger] rest[i] is Ok {
            let i = choose|i: int| 0 <= i < rest.len() && #[trigger] rest[i] is Ok;
            assert(outcomes[i + 1] is Ok);
        }
        if exists|i: int| 0 <= i < outcomes.len() && #[trigger] outcomes[i] is Ok {
            let i = choose|i: int| 0 <= i < outcomes.len() && #[trigger] outcomes[i] is Ok;
            if i > 0 {
                assert(rest[i - 1] is Ok);
            }
        }
    }
}

/// A fetch is successful exactly if one of its requests got a frame, or there
/// was nothing to request.
pub proof fn fetch_succeeds_with_a_frame(
    timestamps: Seq<Timestamp>,
    outcomes: Seq<Result<GeoImage, String>>,
)
    requires
        outcomes.len() == timestamps.len(),
    ensures
        progressed(ready_fetch(timestamps).after(FrameReply::Started), outcomes).fetched
            <==> timestamps.len() == 0 || exists|i: int|
            0 <= i < outcomes.len() && #[trigger] outcomes[i] is Ok,
{
    lemma_progressed(ready_fetch(timestamps).after(FrameReply::Started), outcomes);
}

/// From an ordinary start, the frames are the whole seconds of the window that
/// are multiples of 300, oldest first and none left out.
pub proof fn frames_are_the_multiples_of_300(range: TimeRange, frames: Seq<Timestamp>, secs: i64)
    requires
        range.wf(),
        range.is_frames(frames),
        -9_223_372_035 <= range.start.secs <= 9_223_372_034,
    ensures
        forall|i: int|
            0 <= i < frames.len() ==> (#[trigger] frames[i]).nanos == 0 && frames[i].secs as int
                % 300 == 0,
        forall|i: int, j: int|
            0 <= i && 0 <= j < frames.len() && i == j - 1 ==> (#[trigger] frames[j]).secs == (
            #[trigger] frames[i]).secs + 300,
        frames.contains(Timestamp { secs, nanos: 0 }) <==> secs as int % 300 == 0 && (secs
            > range.start.secs || (secs == range.start.secs && range.start.nanos == 0)) && secs
            <= range.end.secs,
{
    let at = Timestamp { secs, nanos: 0 };
    assert(range.start.valid());
    assert(range.start.stamp_fits());
    lemma_boundary_from(range.start);
    lemma_frames_valid(range, frames);
    let first = range.first_frame();
    assert forall|i: int| 0 <= i < frames.len() implies (#[trigger] frames[i]).nanos == 0
        && frames[i].secs as int % 300 == 0 && frames[i].secs == first.secs + 300 * i by {
        assert(frames[i] == frame_time(first, i));
        assert(range.has_frame(i));
    }
    if at.valid() {
        frames_are_the_boundaries(range, frames, at);
        lemma_boundary_stamp(at);
    } else {
        assert(range.end.valid());
        if frames.contains(at) {
            let i = choose|i: int| 0 <= i < frames.len() && frames[i] == at;
            assert(frames[i].valid());
        }
    }
}

/// From a start too far away to count its nanoseconds, the frames are the start
/// and what lies a multiple of 300 seconds after it, up to the end.
pub proof fn far_frames_count_from_the_start(range: TimeRange, frames: Seq<Timestamp>, i: int)
    requires
        range.wf(),
        range.is_frames(frames),
        range.start.secs < -9_223_372_037 || range.start.secs > 9_223_372_036,
        !range.start.is_leap(),
        0 <= i,
    ensures
        i < frames.len() <==> range.start.secs + 300 * i < range.end.secs || (range.start.secs + 300
            * i == range.end.secs && range.start.nanos <= range.end.nanos),
        i < frames.len() ==> frames[i].secs == range.start.secs + 300 * i && frames[i].nanos
            == range.start.nanos,
{
    assert(!range.start.stamp_fits());
    lemma_frames_valid(range, frames);
    if i < frames.len() {
        assert(frames[i] == frame_time(range.first_frame(), i));
        assert(range.has_frame(i));
    } else if range.has_frame(i) {
        assert(range.has_frame(frames.len() as int));
    }
}

/// A composite is published under the year, the month and the day of its
/// instant, in a file named after the year, month, day, hour and minute, in this
/// order.
pub proof fn composites_are_filed_by_their_time(at: Timestamp)
    ensures
        ({
            let year = formatted(at.secs, at.nanos, "%Y"@);
            let month = formatted(at.secs, at.nanos, "%m"@);
            let day = formatted(at.secs, at.nanos, "%d"@);
            let hour = formatted(at.secs, at.nanos, "%H"@);
            let minute = formatted(at.secs, at.nanos, "%M"@);
            let url = composite_url_at(at);
            let folder = "https://mesonet.agron.iastate.edu/archive/data/"@ + year + "/"@ + month
                + "/"@ + day + "/GIS/uscomp/"@;
            let name = "n0r_"@ + year + month + day + hour + minute + ".png"@;
            &&& url == folder + name
            &&& url.skip(url.len() - 4 - minute.len()) == minute + ".png"@
            &&& url.skip(url.len() - 4 - minute.len() - hour.len()) == hour + (minute + ".png"@)
        }),
{
    reveal_strlit("/GIS/uscomp/n0r_");
    reveal_strlit("/GIS/uscomp/");
    reveal_strlit("n0r_");
    reveal_strlit(".png");
    let year = formatted(at.secs, at.nanos, "%Y"@);
    let month = formatted(at.secs, at.nanos, "%m"@);
    let day = formatted(at.secs, at.nanos, "%d"@);
    let hour = formatted(at.secs, at.nanos, "%H"@);
    let minute = formatted(at.secs, at.nanos, "%M"@);
    assert("/GIS/uscomp/n0r_"@ =~= "/GIS/uscomp/"@ + "n0r_"@);
    lemma_path(
        "https://mesonet.agron.iastate.edu/archive/data/"@ + year + "/"@ + month + "/"@ + day,
        "/GIS/uscomp/"@,
        "n0r_"@,
        year + month + day,
        hour,
        minute,
        ".png"@,
    );
    let head = "https://mesonet.agron.iastate.edu/archive/data/"@ + year + "/"@ + month + "/"@ + day
        + "/GIS/uscomp/n0r_"@;
    assert(head + year + month + day =~= head + (year + month + day));
    assert("n0r_"@ + year + month + day =~= "n0r_"@ + (year + month + day));
    assert(composite_url_at(at) =~= head + year + month + day + hour + minute + ".png"@);
}

proof fn lemma_path(
    head: Seq<char>,
    folder: Seq<char>,
    mark: Seq<char>,
    date: Seq<char>,
    hour: Seq<char>,
    minute: Seq<char>,
    tail: Seq<char>,
)
    ensures
        ({
            let url = head + (folder + mark) + date + hour + minute + tail;
            &&& url == head + folder + (mark + date + hour + minute + tail)
            &&& url.skip(url.len() - tail.len() - minute.len()) == minute + tail
            &&& url.skip(url.len() - tail.len() - minute.len() - hour.len()) == hour + (minute
                + tail)
        }),
{
    let url = head + (folder + mark) + date + hour + minute + tail;
    assert(url =~= head + folder + (mark + date + hour + minute + tail));
    assert(url.skip(url.len() - tail.len() - minute.len()) =~= minute + tail);
    assert(url.skip(url.len() - tail.len() - minute.len() - hour.len()) =~= hour + (minute + tail));
}

/// After a frame was put in, it is there, it is the only one with its timestamp,
/// and every frame with another timestamp is there exactly if it was before.
pub proof fn insert_keeps_the_others(frames: Seq<RadarFrame>, frame: RadarFrame, f: RadarFrame)
    requires
        is_sorted(frames),
    ensures
        is_sorted(with_frame(frames, frame)),
        with_frame(frames, frame).contains(frame),
        f.timestamp != frame.timestamp ==> (with_frame(frames, frame).contains(f)
            <==> frames.contains(f)),
        f.timestamp == frame.timestamp && with_frame(frames, frame).contains(f) ==> f == frame,
        frames.len() <= with_frame(frames, frame).len() <= frames.len() + 1,
{
    let new = with_frame(frames, frame);
    insert_updates_one_image(frames, frame, f.timestamp);
    lemma_older_frames(frames, frame.timestamp);
    let p = older_frames(frames, frame.timestamp);
    assert(new[p] == frame);
    if frames.contains(f) && f.timestamp != frame.timestamp {
        let i = choose|i: int| 0 <= i < frames.len() && frames[i] == f;
        if new.len() == frames.len() || i < p {
            assert(new[i] == f);
        } else {
            assert(new[i + 1] == f);
        }
    }
    if new.contains(f) {
        let i = choose|i: int| 0 <= i < new.len() && new[i] == f;
        if i == p {
        } else if new.len() == frames.len() || i < p {
            assert(frames[i] == f);
        } else {
            assert(frames[i - 1] == f);
        }
        if f.timestamp == frame.timestamp && i != p {
            if i < p {
                assert(new[i].timestamp.before(new[p].timestamp));
            } else {
                assert(new[p].timestamp.before(new[i].timestamp));
            }
        }
    }
}

/// Frames are sorted exactly if every frame has an earlier second than those
/// after it, or earlier nanoseconds in the same second.
pub proof fn sorted_frames_go_forward(frames: Seq<RadarFrame>)
    ensures
        is_sorted(frames) <==> forall|i: int, j: int|
            0 <= i < j < frames.len() ==> {
                let (a, b) = (
                    (#[trigger] frames[i]).timestamp,
                    (#[trigger] frames[j]).timestamp,
                );
                a.secs < b.secs || (a.secs == b.secs && a.nanos < b.nanos)
            },
{
    if forall|i: int, j: int|
        0 <= i < j < frames.len() ==> {
            let (a, b) = ((#[trigger] frames[i]).timestamp, (#[trigger] frames[j]).timestamp);
            a.secs < b.secs || (a.secs == b.secs && a.nanos < b.nanos)
        } {
        assert forall|i: int, j: int| 0 <= i < j < frames.len() implies (
        #[trigger] frames[i]).timestamp.before((#[trigger] frames[j]).timestamp) by {
        }
    }
}

/// The next frame is one further on, and the first after the last. The previous
/// frame is one further back, and the last before the first.
pub proof fn steps_go_by_one(index: int, n: int)
    requires
        0 <= index < n,
    ensures
        index + 1 < n ==> following(index, n) == index + 1,
        index + 1 == n ==> following(index, n) == 0,
        index > 0 ==> preceding(index, n) == index - 1,
        index == 0 ==> preceding(index, n) == n - 1,
        forall|i: int| #[trigger] following(i, n) == (i + 1) % n,
        forall|i: int| #[trigger] preceding(i, n) == (i - 1 + n) % n,
{
    if index + 1 < n {
        lemma_small_mod((index + 1) as nat, n as nat);
    } else {
        lemma_mod_self_0(n);
    }
    if index > 0 {
        lemma_small_mod((index - 1) as nat, n as nat);
        lemma_mod_add_multiples_vanish(index - 1, n);
    } else {
        lemma_small_mod((n - 1) as nat, n as nat);
    }
}

/// A radar fetch is due exactly if none is running and none ended successfully
/// in the last sixty seconds.
pub proof fn radar_is_due_after_a_minute(client: NexradClient, now: u64)
    ensures
        client.fetching ==> !client.due(now),
        !client.fetching && client.last_fetch is None ==> client.due(now),
        !client.fetching && client.last_fetch is Some ==> (client.due(now) <==> now
            - client.last_fetch->0 >= 60_000_000_000),
{
}

/// A fetch takes the start once, and from there a reply and a pause in turn.
pub proof fn replies_come_in_turn(fetch: FetchView, outcome: Result<GeoImage, String>)
    ensures
        fetch.accepts(FrameReply::Started) <==> fetch.phase == FetchPhase::Ready,
        fetch.accepts(FrameReply::Fetched(outcome)) <==> fetch.phase == FetchPhase::Waiting,
        fetch.accepts(FrameReply::Rested) <==> fetch.phase == FetchPhase::Resting,
{
}

/// When it is started, a fetch asks for the frame it is at, or reports that it
/// is complete where none is left. After a pause it does the same for the frame
/// after.
pub proof fn fetch_goes_to_the_next_frame(fetch: FetchView)
    ensures
        ({
            let then = fetch.after(FrameReply::Started);
            let done = fetch.next >= fetch.timestamps.len();
            &&& then.timestamps == fetch.timestamps && then.fetched == fetch.fetched
            &&& then.next == fetch.next
            &&& done ==> then.phase == FetchPhase::Finished
            &&& !done ==> then.phase == FetchPhase::Waiting
            &&& fetch.sends(FrameReply::Started) == if done {
                Some(NexradEvent::FetchComplete)
            } else {
                None
            }
        }),
        ({
            let then = fetch.after(FrameReply::Rested);
            let done = fetch.next + 1 >= fetch.timestamps.len();
            &&& then.timestamps == fetch.timestamps && then.fetched == fetch.fetched
            &&& then.next == fetch.next + 1
            &&& done ==> then.phase == FetchPhase::Finished
            &&& !done ==> then.phase == FetchPhase::Waiting
            &&& fetch.sends(FrameReply::Rested) == if done {
                Some(NexradEvent::FetchComplete)
            } else {
                None
            }
        }),
{
}

/// Upon a reply, a fetch sends the frame it is at, with the picture or with the
/// reason why there is none, and pauses.
pub proof fn fetch_reports_the_frame_it_is_at(fetch: FetchView, image: GeoImage, reason: String)
    ensures
        fetch.sends(FrameReply::Fetched(Ok(image))) == Some(
            NexradEvent::FrameReady { timestamp: fetch.timestamps[fetch.next], image },
        ),
        fetch.sends(FrameReply::Fetched(Err(reason))) == Some(
            NexradEvent::FrameError { timestamp: fetch.timestamps[fetch.next], error: reason },
        ),
        fetch.after(FrameReply::Fetched(Ok(image))) == (FetchView {
            phase: FetchPhase::Resting,
            fetched: true,
            ..fetch
        }),
        fetch.after(FrameReply::Fetched(Err(reason))) == (FetchView {
            phase: FetchPhase::Resting,
            ..fetch
        }),
{
}

/// A fetch that waits asks for the frame it is at, under the URL of its time. It
/// pauses for 50 milliseconds.
pub proof fn fetch_asks_for_the_frame_it_is_at(fetch: FetchView, step: FrameStep)
    requires
        fetch.wants(step),
    ensures
        fetch.phase != FetchPhase::Ready,
        fetch.phase == FetchPhase::Waiting ==> {
            &&& step matches FrameStep::Get { timestamp, url }
            &&& timestamp == fetch.timestamps[fetch.next]
            &&& url@ == composite_url_at(fetch.timestamps[fetch.next])
        },
        fetch.phase == FetchPhase::Resting ==> {
            &&& step matches FrameStep::Rest { millis }
            &&& millis == 50
        },
        fetch.phase == FetchPhase::Finished ==> step is Finish,
{
}

/// A fetch that was just made is at its first frame, and is successful so far
/// only if there are none.
pub proof fn fetches_start_at_the_first_frame(timestamps: Seq<Timestamp>)
    ensures
        ready_fetch(timestamps).timestamps == timestamps,
        ready_fetch(timestamps).next == 0,
        ready_fetch(timestamps).phase == FetchPhase::Ready,
        ready_fetch(timestamps).fetched <==> timestamps.len() == 0,
{
}

/// A fetch can be stepped if it is at one of its frames, or past the last where
/// nothing is awaited, and all its times lie in the calendar.
pub proof fn fetches_stay_at_their_frames(fetch: FrameFetch)
    ensures
        fetch.wf() <==> fetch.next <= fetch.timestamps@.len() && (fetch.phase == FetchPhase::Waiting
            || fetch.phase == FetchPhase::Resting ==> fetch.next < fetch.timestamps@.len())
            && forall|i: int|
            0 <= i < fetch.timestamps@.len() ==> (#[trigger] fetch.timestamps@[i]).valid(),
        fetch@.timestamps == fetch.timestamps@,
        fetch@.next == fetch.next,
        fetch@.phase == fetch.phase,
        fetch@.fetched == fetch.fetched,
{
}

/// A frame, and the event that brings it, is whole if its time lies in the
/// calendar and its picture has all its pixels.
pub proof fn whole_frames(frame: RadarFrame)
    ensures
        frame.wf() <==> frame.timestamp.valid() && frame.image.wf(),
        (NexradEvent::FrameReady { timestamp: frame.timestamp, image: frame.image }).wf()
            <==> frame.timestamp.valid() && frame.image.wf(),
        NexradEvent::FetchComplete.wf(),
{
}

/// A store is in shape exactly if its frames are sorted and one of them is the
/// current one, as soon as there is one.
pub proof fn stores_have_a_current_frame(store: RadarFrameStore)
    ensures
        store.sorted() <==> is_sorted(store.frames@),
        store.has_cursor() <==> store.current_index < store.frames@.len() || (store.frames@.len()
            == 0 && store.current_index == 0),
        store.wf() <==> store.sorted() && store.has_cursor(),
{
}

} // verus!
