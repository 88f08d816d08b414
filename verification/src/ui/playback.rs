//! Radar loop playback controls.
//!
//! The panel provides play / pause, single steps, a frame scrubber, a speed
//! selector, a loop toggle and a display of the current frame's time.

use crate::binary::Binary32;
#[allow(unused_imports)]
use crate::clock::{elapsed, formatted, MIN_SECS};
use crate::clock::{format_utc, nanos_since, sub_hours, utc_now, Timestamp};
use crate::data::nexrad::TimeRange;
#[allow(unused_imports)]
use crate::data::nexrad::{following, preceding, steps_go_by_one};
#[allow(unused_imports)]
use crate::text::decimal;
use crate::text::push_decimal;
use crate::ui::map_view::RadarLayer;
use vstd::arithmetic::div_mod::{
    lemma_add_mod_noop, lemma_mod_add_multiples_vanish, lemma_mod_self_0, lemma_mod_twice,
    lemma_small_mod,
};
use vstd::prelude::*;
use vstd::string::*;

verus! {

/// How fast the loop runs.
#[derive(Debug, Clone, Copy)]
pub enum PlaybackSpeed {
    /// Frames per second.
    Fps(Binary32),
}

/// A speed that can be picked, and its label.
#[derive(Debug, Clone, Copy)]
pub struct SpeedPreset {
    pub fps: Binary32,
    pub label: &'static str,
}

impl PlaybackSpeed {
    pub open spec fn rate(self) -> Binary32 {
        match self {
            PlaybackSpeed::Fps(f) => f,
        }
    }

    pub fn fps(self) -> (r: Binary32)
        ensures
            r == self.rate(),
    {
        match self {
            PlaybackSpeed::Fps(f) => f,
        }
    }

    /// The speeds that can be picked: 1, 2, 5, 10 and 0.5 frames per second.
    pub fn presets() -> (r: [SpeedPreset; 5])
        ensures
            r@[0].fps.bits == 0x3f80_0000 && r@[0].label@ == "1×"@,
            r@[1].fps.bits == 0x4000_0000 && r@[1].label@ == "2×"@,
            r@[2].fps.bits == 0x40a0_0000 && r@[2].label@ == "5×"@,
            r@[3].fps.bits == 0x4120_0000 && r@[3].label@ == "10×"@,
            r@[4].fps.bits == 0x3f00_0000 && r@[4].label@ == "½×"@,
    {
        [
            SpeedPreset { fps: Binary32 { bits: 0x3f80_0000 }, label: "1×" },
            SpeedPreset { fps: Binary32 { bits: 0x4000_0000 }, label: "2×" },
            SpeedPreset { fps: Binary32 { bits: 0x40a0_0000 }, label: "5×" },
            SpeedPreset { fps: Binary32 { bits: 0x4120_0000 }, label: "10×" },
            SpeedPreset { fps: Binary32 { bits: 0x3f00_0000 }, label: "½×" },
        ]
    }
}

impl PartialEq for PlaybackSpeed {
    fn eq(&self, other: &PlaybackSpeed) -> (r: bool) {
        self.fps().equals(&other.fps())
    }
}

impl vstd::std_specs::cmp::PartialEqSpecImpl for PlaybackSpeed {
    open spec fn obeys_eq_spec() -> bool {
        true
    }

    open spec fn eq_spec(&self, other: &PlaybackSpeed) -> bool {
        self.rate().same(other.rate())
    }
}

/// The state of the playback controls.
#[derive(Debug, Clone, Copy)]
pub struct PlaybackPanel {
    pub playing: bool,
    pub loop_enabled: bool,
    pub speed: PlaybackSpeed,
    /// How many hours back from "now" to load.
    pub hours_back: u32,
    /// When the loop last moved on, in nanoseconds.
    pub last_advance: u64,
}

impl PlaybackPanel {
    /// The controls are paused, loop at five frames per second and load two
    /// hours.
    pub open spec fn is_new(self, now: u64) -> bool {
        &&& !self.playing
        &&& self.loop_enabled
        &&& self.speed.rate().bits == 0x40a0_0000
        &&& self.hours_back == 2
        &&& self.last_advance == now
    }

    /// The controls at `now`, when the program starts.
    pub fn new(now: u64) -> (r: PlaybackPanel)
        ensures
            r.is_new(now),
    {
        PlaybackPanel {
            playing: false,
            loop_enabled: true,
            speed: PlaybackSpeed::Fps(Binary32 { bits: 0x40a0_0000 }),
            hours_back: 2,
            last_advance: now,
        }
    }

    /// The window that ends at `now`.
    pub fn time_range_at(&self, now: Timestamp) -> (r: TimeRange)
        requires
            now.valid(),
            now.earlier_secs(self.hours_back as int) >= MIN_SECS,
        ensures
            r.end == now,
            r.start == now.earlier(self.hours_back as int),
            now.nanos < 1_000_000_000 ==> r.start.secs == now.secs - 3600 * self.hours_back
                && r.start.nanos == now.nanos,
    {
        TimeRange { start: sub_hours(now, self.hours_back as i64), end: now }
    }

    /// Returns the time range the user has configured: the hours up to now.
    pub fn time_range(&self) -> (r: TimeRange)
        requires
            3600 * self.hours_back <= -MIN_SECS,
        ensures
            r.end.valid(),
            r.end.secs >= 0,
            r.start == r.end.earlier(self.hours_back as int),
            r.start.valid(),
            r.end.secs - r.start.secs == 3600 * self.hours_back,
            r.end.nanos == r.start.nanos,
    {
        self.time_range_at(utc_now())
    }

    /// The panel keeps no frame count of its own, so nothing changes.
    pub fn sync_from_radar<T>(&mut self, _radar: &RadarLayer<T>)
        ensures
            *final(self) == *old(self),
    {
    }

    /// Advances playback if a frame's time has passed since it last advanced,
    /// in a loop of `frame_count` frames that shows the one at `index`. Returns
    /// the new frame's index when the frame should change. At the end the loop
    /// starts over, or stops where looping is off.
    pub fn tick(&mut self, index: usize, frame_count: usize, frame_nanos: u64, now: u64) -> (r:
        Option<usize>)
        requires
            frame_count > 1 ==> index < usize::MAX,
        ensures
            if old(self).due(frame_count as int, frame_nanos, now) {
                let (playing, next) = moved_on(
                    index as int,
                    frame_count as int,
                    old(self).loop_enabled,
                );
                &&& *final(self) == (PlaybackPanel { playing, last_advance: now, ..*old(self) })
                &&& match r {
                    Some(i) => playing && i == next,
                    None => !playing,
                }
            } else {
                r is None && *final(self) == *old(self)
            },
            old(self).playing && frame_count > 1 && now >= old(self).last_advance && now
                - old(self).last_advance >= frame_nanos ==> {
                let next = (index + 1) % frame_count as int;
                &&& final(self).last_advance == now
                &&& next != 0 || old(self).loop_enabled ==> r == Some(next as usize)
                    && final(self).playing
                &&& next == 0 && !old(self).loop_enabled ==> r is None && !final(self).playing
            },
            !old(self).playing || frame_count <= 1 || (frame_nanos > 0 && now
                - old(self).last_advance < frame_nanos) ==> r is None && *final(self) == *old(self),
            final(self).loop_enabled == old(self).loop_enabled,
            final(self).speed == old(self).speed,
            final(self).hours_back == old(self).hours_back,
    {
        if !self.playing || frame_count <= 1 || nanos_since(self.last_advance, now) < frame_nanos {
            return None;
        }
        self.last_advance = now;
        let next: usize = (index + 1) % frame_count;
        if next == 0 && !self.loop_enabled {
            self.playing = false;
            None
        } else {
            Some(next)
        }
    }

    /// The label of the play / pause button.
    pub fn play_label(&self) -> (r: &'static str)
        ensures
            r@ == if self.playing {
                "⏸"@
            } else {
                "▶"@
            },
    {
        if self.playing {
            "⏸"
        } else {
            "▶"
        }
    }

    /// The play / pause button was clicked.
    pub fn toggle_play(&mut self, now: u64)
        ensures
            *final(self) == (PlaybackPanel {
                playing: !old(self).playing,
                last_advance: now,
                ..*old(self)
            }),
    {
        self.playing = !self.playing;
        self.last_advance = now;
    }

    /// A speed was picked.
    pub fn set_speed(&mut self, fps: Binary32)
        ensures
            *final(self) == (PlaybackPanel { speed: PlaybackSpeed::Fps(fps), ..*old(self) }),
    {
        self.speed = PlaybackSpeed::Fps(fps);
    }

    /// The scrubber was moved to frame `index`: the loop pauses there.
    pub fn scrub<T>(&mut self, radar: &mut RadarLayer<T>, index: usize)
        requires
            index < old(radar).store.frames@.len(),
        ensures
            *final(self) == (PlaybackPanel { playing: false, ..*old(self) }),
            final(radar).shows(*old(radar), index as int),
            final(radar).store.current_index == index,
            old(radar).wf() ==> final(radar).wf(),
    {
        self.playing = false;
        radar.store.current_index = index;
    }

    /// The loop is due to move on.
    pub open spec fn due(self, frame_count: int, frame_nanos: u64, now: u64) -> bool {
        self.playing && frame_count > 1 && elapsed(self.last_advance, now) >= frame_nanos
    }

    /// Moves the loop on if it plays and a frame's time has passed since it
    /// last did. At the end it starts over, or stops where looping is off. The
    /// answer says whether to keep repainting.
    pub fn auto_advance<T>(
        &mut self,
        radar: &mut RadarLayer<T>,
        frame_nanos: u64,
        now: u64,
    ) -> (r: bool)
        requires
            old(radar).store.frames@.len() > 1 ==> old(radar).store.current_index < usize::MAX,
        ensures
            r == (old(self).playing && old(radar).store.frames@.len() > 1),
            ({
                let n = old(radar).store.frames@.len() as int;
                let i = old(radar).store.current_index as int;
                if old(self).due(n, frame_nanos, now) {
                    let (playing, index) = moved_on(i, n, old(self).loop_enabled);
                    &&& *final(self) == (PlaybackPanel {
                        playing,
                        last_advance: now,
                        ..*old(self)
                    })
                    &&& final(radar).shows(*old(radar), index)
                } else {
                    &&& *final(self) == *old(self)
                    &&& final(radar).shows(*old(radar), i)
                }
            }),
            old(radar).wf() ==> final(radar).wf(),
    {
        let frame_count: usize = radar.store.len();
        let running = self.playing && frame_count > 1;
        if let Some(next) = self.tick(radar.store.current_index, frame_count, frame_nanos, now) {
            radar.store.current_index = next;
        }
        running
    }
}

/// Whether a loop of `n` frames still plays after it was due at frame `i`, and
/// the frame it then shows.
pub open spec fn moved_on(i: int, n: int, looping: bool) -> (bool, int) {
    if following(i, n) == 0 && !looping {
        (false, i)
    } else {
        (true, following(i, n))
    }
}

/// Whether a loop of `n` frames that plays from frame `i` still does after it
/// was due `times` times, and the frame it then shows.
pub open spec fn played(i: int, n: int, looping: bool, times: nat) -> (bool, int)
    decreases times,
{
    if times == 0 {
        (true, i)
    } else {
        let (playing, index) = played(i, n, looping, (times - 1) as nat);
        if playing {
            moved_on(index, n, looping)
        } else {
            (playing, index)
        }
    }
}

/// Without looping, playback shows each frame up to the last in turn, then
/// stops there.
pub proof fn playback_stops_at_the_last_frame(i: int, n: int, times: nat)
    requires
        0 <= i < n,
    ensures
        played(i, n, false, times) == if i + times < n {
            (true, i + times)
        } else {
            (false, n - 1)
        },
    decreases times,
{
    if times > 0 {
        playback_stops_at_the_last_frame(i, n, (times - 1) as nat);
        if i + times < n {
            lemma_small_mod((i + times) as nat, n as nat);
        } else if i + times == n {
            lemma_mod_self_0(n);
        }
    }
}

/// With looping, playback goes on forever, and starts over after the last
/// frame.
pub proof fn playback_loops(i: int, n: int, times: nat)
    requires
        0 <= i < n,
    ensures
        played(i, n, true, times) == (true, (i + times) % n),
    decreases times,
{
    if times > 0 {
        playback_loops(i, n, (times - 1) as nat);
        lemma_add_mod_noop(i + times - 1, 1, n);
        if n > 1 {
            lemma_small_mod(1, n as nat);
        }
        lemma_mod_twice(i + times - 1, n);
        lemma_add_mod_noop((i + times - 1) % n, 1, n);
    } else {
        lemma_small_mod(i as nat, n as nat);
    }
}

/// Steps to the frame before the current one, from the first to the last.
pub fn step_back<T>(radar: &mut RadarLayer<T>)
    ensures
        ({
            let n = old(radar).store.frames@.len();
            let i = old(radar).store.current_index;
            &&& 0 < i < n ==> final(radar).store.current_index == i - 1
            &&& i == 0 && n > 0 ==> final(radar).store.current_index == n - 1
        }),
        final(radar).shows(
            *old(radar),
            if old(radar).store.frames@.len() > 0 {
                preceding(
                    old(radar).store.current_index as int,
                    old(radar).store.frames@.len() as int,
                )
            } else {
                old(radar).store.current_index as int
            },
        ),
        old(radar).wf() ==> final(radar).wf(),
{
    let n: usize = radar.store.len();
    if n > 0 {
        let i: usize = radar.store.current_index;
        proof {
            if i < n {
                steps_go_by_one(i as int, n as int);
            }
        }
        proof {
            if i > 0 {
                lemma_mod_add_multiples_vanish(i - 1, n as int);
            } else {
                lemma_small_mod((n - 1) as nat, n as nat);
            }
        }
        radar.store.current_index = if i > 0 {
            (i - 1) % n
        } else {
            n - 1
        };
    }
}

/// Steps to the frame after the current one, from the last to the first.
pub fn step_forward<T>(radar: &mut RadarLayer<T>)
    requires
        old(radar).store.frames@.len() > 0 ==> old(radar).store.current_index < usize::MAX,
    ensures
        ({
            let n = old(radar).store.frames@.len();
            let i = old(radar).store.current_index;
            &&& i + 1 < n ==> final(radar).store.current_index == i + 1
            &&& i + 1 == n ==> final(radar).store.current_index == 0
        }),
        final(radar).shows(
            *old(radar),
            if old(radar).store.frames@.len() > 0 {
                following(
                    old(radar).store.current_index as int,
                    old(radar).store.frames@.len() as int,
                )
            } else {
                old(radar).store.current_index as int
            },
        ),
        old(radar).wf() ==> final(radar).wf(),
{
    proof {
        let (i, n) = (radar.store.current_index as int, radar.store.frames@.len() as int);
        if i < n {
            steps_go_by_one(i, n);
        }
    }
    radar.store.advance();
}

/// What the panel says about the current frame.
pub enum FrameLabel {
    /// Its time.
    Time(String),
    /// That there are no frames.
    NoFrames(&'static str),
    /// Nothing.
    Blank,
}

/// The label for the current frame.
pub fn frame_label<T>(radar: &RadarLayer<T>) -> (r: FrameLabel)
    requires
        radar.current_time() matches Some(at) ==> at.valid(),
    ensures
        match radar.current_time() {
            Some(at) => r matches FrameLabel::Time(text) && text@ == formatted(
                at.secs,
                at.nanos,
                "%Y-%m-%d %H:%M UTC"@,
            ),
            None if radar.store.frames@.len() == 0 => r matches FrameLabel::NoFrames(text) && text@
                == "No frames loaded"@,
            None => r is Blank,
        },
{
    match radar.current_timestamp() {
        Some(at) => FrameLabel::Time(format_utc(at, "%Y-%m-%d %H:%M UTC")),
        None => if radar.store.len() == 0 {
            FrameLabel::NoFrames("No frames loaded")
        } else {
            FrameLabel::Blank
        },
    }
}

/// The position of the current frame and the number of frames, counted from
/// one; nothing without frames.
pub fn frame_counter<T>(radar: &RadarLayer<T>) -> (r: Option<String>)
    requires
        radar.store.frames@.len() > 0 ==> radar.store.current_index < usize::MAX,
    ensures
        match r {
            Some(text) => radar.store.frames@.len() > 0 && text@ == decimal(
                (radar.store.current_index + 1) as nat,
            ) + "/"@ + decimal(radar.store.frames@.len()),
            None => radar.store.frames@.len() == 0,
        },
{
    let n: usize = radar.store.len();
    if n == 0 {
        return None;
    }
    let mut text = String::new();
    push_decimal(&mut text, (radar.store.current_index + 1) as u64);
    text.append("/");
    push_decimal(&mut text, n as u64);
    assert(Seq::<char>::empty() + decimal((radar.store.current_index + 1) as nat) =~= decimal(
        (radar.store.current_index + 1) as nat,
    ));
    Some(text)
}

/// Two times of day as the ends of the scrubber.
pub fn span_text(first: &str, last: &str) -> (r: String)
    ensures
        r@ == first@ + " → "@ + last@,
{
    let mut r = first.to_owned();
    r.append(" → ");
    r.append(last);
    r
}

/// The times of the first and the last frame, for the ends of the scrubber;
/// nothing where there are not at least two frames.
pub fn loop_span<T>(radar: &RadarLayer<T>) -> (r: Option<String>)
    requires
        radar.store.frames@.len() > 1 ==> radar.store.frames@.first().timestamp.valid()
            && radar.store.frames@.last().timestamp.valid(),
    ensures
        match r {
            Some(text) => {
                let first = radar.store.frames@.first().timestamp;
                let last = radar.store.frames@.last().timestamp;
                &&& radar.store.frames@.len() > 1
                &&& text@ == formatted(first.secs, first.nanos, "%H:%M"@) + " → "@ + formatted(
                    last.secs,
                    last.nanos,
                    "%H:%M UTC"@,
                )
            },
            None => radar.store.frames@.len() <= 1,
        },
{
    let n: usize = radar.store.len();
    if n <= 1 {
        return None;
    }
    let first = format_utc(radar.store.frames[0].timestamp, "%H:%M");
    let last = format_utc(radar.store.frames[n - 1].timestamp, "%H:%M UTC");
    Some(span_text(first.as_str(), last.as_str()))
}

/// The loop is due to move on exactly if it plays, has more than one frame, and
/// the frame's time has passed since it last moved on.
pub proof fn loop_is_due_after_a_frames_time(
    panel: PlaybackPanel,
    n: int,
    frame_nanos: u64,
    now: u64,
)
    requires
        now >= panel.last_advance,
    ensures
        panel.due(n, frame_nanos, now) <==> panel.playing && n > 1 && now - panel.last_advance
            >= frame_nanos,
{
}

/// A clock that went back makes the loop wait.
pub proof fn loop_waits_for_the_clock(panel: PlaybackPanel, n: int, frame_nanos: u64, now: u64)
    requires
        now < panel.last_advance,
        frame_nanos > 0,
    ensures
        !panel.due(n, frame_nanos, now),
{
}

/// A loop that moves on shows the next frame. After the last it shows the first,
/// or stays and stops where looping is off.
pub proof fn loop_moves_on_by_one(i: int, n: int, looping: bool)
    requires
        0 <= i < n,
    ensures
        i + 1 < n ==> moved_on(i, n, looping) == (true, i + 1),
        i + 1 == n && looping ==> moved_on(i, n, looping) == (true, 0int),
        i + 1 == n && !looping ==> moved_on(i, n, looping) == (false, i),
{
    steps_go_by_one(i, n);
}

/// From a position past the last frame, the loop moves on to one of its frames.
pub proof fn loop_moves_on_to_a_frame(i: int, n: int, looping: bool)
    requires
        0 <= i,
        0 < n,
    ensures
        (i + 1) % n != 0 || looping ==> moved_on(i, n, looping) == (true, (i + 1) % n),
        (i + 1) % n == 0 && !looping ==> moved_on(i, n, looping) == (false, i),
{
}

/// New controls are paused, loop at five frames per second (`0x40a0_0000` in
/// single precision) and load two hours.
pub proof fn new_controls_are_paused(panel: PlaybackPanel, now: u64)
    requires
        panel.is_new(now),
    ensures
        !panel.playing,
        panel.loop_enabled,
        panel.speed == PlaybackSpeed::Fps(Binary32 { bits: 0x40a0_0000 }),
        panel.hours_back == 2,
        panel.last_advance == now,
{
}

/// A speed is its frames per second.
pub proof fn speeds_are_rates(fps: Binary32)
    ensures
        PlaybackSpeed::Fps(fps).rate() == fps,
{
}

} // verus!
