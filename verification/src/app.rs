//! The application: its clients and panels, and what a frame does with them.

#[allow(unused_imports)]
use crate::clock::MIN_SECS;
use crate::data::nexrad::{FrameFetch, NexradClient, NexradEvent, TimeRange};
#[allow(unused_imports)]
use crate::data::sentinel::area_tiles;
use crate::data::sentinel::{SceneFetch, SentinelClient, SentinelEvent};
use crate::data::GeoImage;
#[allow(unused_imports)]
use crate::data::{nexrad, sentinel};
use crate::ui::map_view::{MapView, MapViewport};
#[allow(unused_imports)]
use crate::ui::playback::moved_on;
use crate::ui::playback::PlaybackPanel;
use crate::ui::sidebar::Sidebar;
#[allow(unused_imports)]
use crate::ui::sidebar::SidebarSection;
use vstd::prelude::*;
use vstd::string::*;

verus! {

/// Top-level events flowing from background tasks back to the UI thread.
pub enum AppEvent {
    Nexrad(NexradEvent),
    Sentinel(SentinelEvent),
}

impl AppEvent {
    pub open spec fn wf(self) -> bool {
        match self {
            AppEvent::Nexrad(event) => event.wf(),
            AppEvent::Sentinel(event) => event.wf(),
        }
    }
}

/// Persistent application state, owned by the render loop. `T` stands for a
/// texture.
pub struct SatelliteViewerApp<T> {
    pub nexrad_client: NexradClient,
    pub sentinel_client: SentinelClient,
    pub map_view: MapView<T>,
    pub playback_panel: PlaybackPanel,
    pub sidebar: Sidebar,
    pub show_sidebar: bool,
}

/// What is to be fetched in the background.
pub struct Fetches {
    /// The scene for the viewport.
    pub scene: Option<SceneFetch>,
    /// The window of the radar loop.
    pub window: Option<TimeRange>,
}

impl<T> SatelliteViewerApp<T> {
    pub open spec fn wf(self) -> bool {
        self.map_view.wf()
    }

    /// An application that has fetched nothing, shows both layers and the
    /// sidebar, and is paused.
    pub fn new(now: u64) -> (r: SatelliteViewerApp<T>)
        ensures
            r.wf(),
            !r.nexrad_client.fetching && r.nexrad_client.last_fetch is None,
            !r.sentinel_client.fetching && r.sentinel_client.last_fetch is None,
            r.sentinel_client.last_viewport is None,
            r.map_view.is_new(),
            r.playback_panel.is_new(now),
            r.sidebar.open_section == SidebarSection::Layers,
            r.show_sidebar,
    {
        SatelliteViewerApp {
            nexrad_client: NexradClient::new(),
            sentinel_client: SentinelClient::new(),
            map_view: MapView::new(),
            playback_panel: PlaybackPanel::new(now),
            sidebar: Sidebar::default(),
            show_sidebar: true,
        }
    }

    /// Everything but the map is as it was.
    pub open spec fn same_but_map(self, before: SatelliteViewerApp<T>) -> bool {
        &&& self.nexrad_client == before.nexrad_client
        &&& self.sentinel_client == before.sentinel_client
        &&& self.playback_panel == before.playback_panel
        &&& self.sidebar == before.sidebar
        &&& self.show_sidebar == before.show_sidebar
    }

    /// Applies an incoming event to the layer it is about. A picture that
    /// arrived is turned into a texture by `load`, which is given the
    /// texture's name and the image.
    pub fn process_event<F: FnOnce(&str, &GeoImage) -> T>(&mut self, event: AppEvent, load: F)
        requires
            old(self).map_view.radar_layer.in_order(),
            event.wf(),
            forall|name: &str, image: &GeoImage|
                image.wf() ==> #[trigger] load.requires((name, image)),
        ensures
            old(self).wf() ==> final(self).wf(),
            final(self).map_view.radar_layer.in_order(),
            final(self).same_but_map(*old(self)),
            final(self).playback_panel == old(self).playback_panel,
            final(self).nexrad_client == old(self).nexrad_client,
            final(self).sentinel_client == old(self).sentinel_client,
            final(self).sidebar == old(self).sidebar,
            final(self).show_sidebar == old(self).show_sidebar,
            match event {
                AppEvent::Nexrad(event) => {
                    &&& final(self).map_view.radar_layer.took_in(
                        old(self).map_view.radar_layer,
                        event,
                        load,
                    )
                    &&& final(self).map_view.sentinel_layer == old(self).map_view.sentinel_layer
                },
                AppEvent::Sentinel(event) => {
                    &&& final(self).map_view.sentinel_layer.took_in(
                        old(self).map_view.sentinel_layer,
                        event,
                        load,
                    )
                    &&& final(self).map_view.radar_layer == old(self).map_view.radar_layer
                },
            },
    {
        match event {
            AppEvent::Nexrad(event) => {
                self.map_view.radar_layer.handle_event(event, load);
                self.playback_panel.sync_from_radar(&self.map_view.radar_layer);
            },
            AppEvent::Sentinel(event) => {
                self.map_view.sentinel_layer.handle_event(event, load);
            },
        }
    }

    /// Advances the radar playback clock and shows the frame it changes to.
    /// The answer says whether to repaint: whether the frame changed.
    pub fn tick_playback(&mut self, frame_nanos: u64, now: u64) -> (r: bool)
        requires
            old(self).map_view.radar_layer.store.frames@.len() > 1 ==> old(
                self,
            ).map_view.radar_layer.store.current_index < usize::MAX,
        ensures
            ({
                let before = old(self).map_view.radar_layer;
                let n = before.store.frames@.len() as int;
                let i = before.store.current_index as int;
                let panel = old(self).playback_panel;
                if panel.due(n, frame_nanos, now) {
                    let (playing, index) = moved_on(i, n, panel.loop_enabled);
                    &&& r == playing
                    &&& final(self).playback_panel == (PlaybackPanel {
                        playing,
                        last_advance: now,
                        ..panel
                    })
                    &&& final(self).map_view.radar_layer.shows(before, index)
                } else {
                    &&& !r
                    &&& final(self).playback_panel == panel
                    &&& final(self).map_view.radar_layer.shows(before, i)
                }
            }),
            ({
                let panel = old(self).playback_panel;
                let n = old(self).map_view.radar_layer.store.frames@.len() as int;
                let i = old(self).map_view.radar_layer.store.current_index as int;
                panel.playing && n > 1 && now >= panel.last_advance && now - panel.last_advance
                    >= frame_nanos ==> final(self).playback_panel.last_advance == now && r == ((i
                    + 1) % n != 0 || panel.loop_enabled)
            }),
            r ==> {
                let shown = final(self).map_view.radar_layer.store.current_index as int;
                let before = old(self).map_view.radar_layer.store;
                &&& old(self).playback_panel.playing && final(self).playback_panel.playing
                &&& shown == (before.current_index + 1) % before.frames@.len() as int
            },
            final(self).map_view.sentinel_layer == old(self).map_view.sentinel_layer,
            final(self).nexrad_client == old(self).nexrad_client,
            final(self).sentinel_client == old(self).sentinel_client,
            final(self).sidebar == old(self).sidebar,
            final(self).show_sidebar == old(self).show_sidebar,
            old(self).wf() ==> final(self).wf(),
    {
        let index: usize = self.map_view.radar_layer.store.current_index;
        let frame_count: usize = self.map_view.radar_layer.store.len();
        match self.playback_panel.tick(index, frame_count, frame_nanos, now) {
            Some(next) => {
                self.map_view.radar_layer.set_frame(next);
                true
            },
            None => false,
        }
    }

    /// Starts to fetch the frames of `range`. Nothing starts where they run
    /// past the end of the calendar.
    pub fn fetch_window(&mut self, range: TimeRange) -> (r: Option<FrameFetch>)
        requires
            range.start.valid(),
            range.end.valid(),
        ensures
            match r {
                Some(fetch) => {
                    &&& range.wf()
                    &&& range.is_frames(fetch.timestamps@)
                    &&& fetch@ == nexrad::ready_fetch(fetch.timestamps@)
                    &&& fetch.wf()
                    &&& *final(self) == (SatelliteViewerApp {
                        nexrad_client: NexradClient { fetching: true, ..old(self).nexrad_client },
                        ..*old(self)
                    })
                },
                None => !range.wf() && *final(self) == *old(self),
            },
    {
        if range.fits() {
            Some(self.nexrad_client.fetch_frames(&range))
        } else {
            None
        }
    }

    /// What is due to be fetched: the scene for the viewport, whose fetch
    /// starts, and the hours of the radar loop up to now, whose frames
    /// `fetch_window` starts to fetch. `nw` and `se` are the tiles at the
    /// viewport's corners, at its zoom; `close_to_last` says whether the
    /// viewport is close to the last one that a scene was fetched for.
    pub fn maybe_fetch_new_data(
        &mut self,
        viewport: &MapViewport,
        close_to_last: bool,
        nw: (u32, u32),
        se: (u32, u32),
        now: u64,
    ) -> (r: Fetches)
        requires
            3600 * old(self).playback_panel.hours_back <= -MIN_SECS,
        ensures
            match r.scene {
                Some(fetch) => {
                    &&& old(self).sentinel_client.due(close_to_last, now)
                    &&& fetch.z == viewport.level()
                    &&& fetch@ == sentinel::ready_fetch(fetch.z, area_tiles(fetch.z, nw, se))
                    &&& fetch.wf()
                    &&& final(self).sentinel_client == (SentinelClient {
                        fetching: true,
                        last_fetch: Some(now),
                        ..old(self).sentinel_client
                    })
                },
                None => {
                    &&& !old(self).sentinel_client.due(close_to_last, now)
                    &&& final(self).sentinel_client == old(self).sentinel_client
                },
            },
            match r.window {
                Some(range) => {
                    &&& old(self).nexrad_client.due(now)
                    &&& range.start.valid()
                    &&& range.end.valid()
                    &&& range.end.secs >= 0
                    &&& range.end.secs - range.start.secs == 3600
                        * old(self).playback_panel.hours_back
                    &&& range.end.nanos == range.start.nanos
                },
                None => !old(self).nexrad_client.due(now),
            },
            final(self).nexrad_client == old(self).nexrad_client,
            final(self).map_view == old(self).map_view,
            final(self).playback_panel == old(self).playback_panel,
            final(self).sidebar == old(self).sidebar,
            final(self).show_sidebar == old(self).show_sidebar,
    {
        let scene: Option<SceneFetch> = if self.sentinel_client.needs_refresh(close_to_last, now) {
            Some(self.sentinel_client.fetch_scene(viewport.zoom_level(), nw, se, now))
        } else {
            None
        };
        let window: Option<TimeRange> = if self.nexrad_client.needs_refresh(now) {
            Some(self.playback_panel.time_range())
        } else {
            None
        };
        Fetches { scene, window }
    }

    /// What the status indicator says: the radar comes first.
    pub fn status(&self) -> (r: Option<&'static str>)
        ensures
            match r {
                Some(text) => text@ == if self.nexrad_client.fetching {
                    "Fetching radar…"@
                } else {
                    "Fetching satellite…"@
                },
                None => true,
            },
            r is None <==> !self.nexrad_client.fetching && !self.sentinel_client.fetching,
    {
        if self.nexrad_client.is_fetching() {
            Some("Fetching radar…")
        } else if self.sentinel_client.is_fetching() {
            Some("Fetching satellite…")
        } else {
            None
        }
    }
}

} // verus!
