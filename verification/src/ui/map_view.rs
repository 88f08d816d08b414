//! The central map panel and the layers on it.

use crate::binary::{Binary32, Binary64};
#[allow(unused_imports)]
use crate::binary::{clamp, round, round_is_nearest};
use crate::clock::Timestamp;
#[allow(unused_imports)]
use crate::data::nexrad::{
    conus_bounds, insert_keeps_the_others, is_sorted, lemma_older_frames, with_frame,
};
use crate::data::nexrad::{nexrad_conus_bounds, NexradEvent, RadarFrame, RadarFrameStore};
use crate::data::sentinel::SentinelEvent;
use crate::data::{GeoBounds, GeoImage};
#[allow(unused_imports)]
use crate::text::{
    decimal, signed_decimal, signed_decimal_round_trips, three_numbers_are_readable,
};
use crate::text::{push_decimal, push_signed_decimal};
use crate::tiles::{TileId, TileMap};
use std::collections::HashMap;
#[allow(unused_imports)]
use vstd::arithmetic::power2::{lemma_pow2_pos, pow2};
use vstd::prelude::*;
use vstd::string::*;

verus! {

/// A snapshot of the current map viewport (center + zoom).
#[derive(Clone, Copy, Debug)]
pub struct MapViewport {
    pub center_lon: Binary64,
    pub center_lat: Binary64,
    pub zoom: Binary64,
    pub bounds: GeoBounds,
}

impl MapViewport {
    /// The zoom at which tiles are asked for.
    pub open spec fn level(self) -> int {
        if self.zoom.is_nan() {
            0
        } else {
            clamp(round(self.zoom.value()), 1, 18)
        }
    }

    /// The zoom rounded to a whole level from 1 to 18.
    pub fn zoom_level(&self) -> (r: u8)
        ensures
            r == self.level(),
            self.zoom.is_nan() ==> r == 0,
            !self.zoom.is_nan() ==> 1 <= r <= 18,
            !self.zoom.is_nan() && r > 1 ==> (2 * r - 1) * pow2(1074) <= 2 * self.zoom.value(),
            !self.zoom.is_nan() && r < 18 ==> 2 * self.zoom.value() < (2 * r + 1) * pow2(1074),
    {
        proof {
            zoom_level_is_nearest(*self);
        }
        self.zoom.round_to(1, 18)
    }
}

/// The satellite layer: the scene it shows and the tiles of it that arrived,
/// each with its texture.
pub struct SentinelLayer<T> {
    pub visible: bool,
    pub opacity: Binary32,
    pub scene_id: Option<String>,
    pub cloud_cover: Option<Binary64>,
    pub scene_datetime: Option<String>,
    pub cog_url: Option<String>,
    pub tiles: TileMap<T>,
    pub tile_bounds: TileMap<GeoBounds>,
}

/// The name of a satellite tile's texture.
pub open spec fn sentinel_texture(id: TileId) -> Seq<char> {
    "sentinel_"@ + decimal(id.z as nat) + "_"@ + decimal(id.x as nat) + "_"@ + decimal(id.y as nat)
}

impl<T> SentinelLayer<T> {
    /// Every tile with a texture has its place on the map, and no other tile
    /// has one.
    pub open spec fn wf(self) -> bool {
        self.tiles@.dom() == self.tile_bounds@.dom()
    }

    /// The scene shown and its settings are the same.
    pub open spec fn same_scene(self, other: SentinelLayer<T>) -> bool {
        &&& self.visible == other.visible
        &&& self.opacity == other.opacity
        &&& self.scene_id == other.scene_id
        &&& self.cloud_cover == other.cloud_cover
        &&& self.scene_datetime == other.scene_datetime
        &&& self.cog_url == other.cog_url
    }

    /// The layer is shown at four fifths opacity, without a scene.
    pub open spec fn is_new(self) -> bool {
        &&& self.visible
        &&& self.opacity.bits == 0x3f4c_cccd
        &&& self.scene_id is None
        &&& self.cloud_cover is None
        &&& self.scene_datetime is None
        &&& self.cog_url is None
        &&& self.tiles@ == Map::<TileId, T>::empty()
        &&& self.tile_bounds@ == Map::<TileId, GeoBounds>::empty()
    }

    /// A visible layer at four fifths opacity, without a scene.
    pub fn new() -> (r: SentinelLayer<T>)
        ensures
            r.is_new(),
            r.wf(),
    {
        let r = SentinelLayer {
            visible: true,
            opacity: Binary32 { bits: 0x3f4c_cccd },
            scene_id: None,
            cloud_cover: None,
            scene_datetime: None,
            cog_url: None,
            tiles: TileMap::new(),
            tile_bounds: TileMap::new(),
        };
        assert(r.tiles@.dom() =~= r.tile_bounds@.dom());
        r
    }

    /// The layer is `before` after an event of the fetch.
    pub open spec fn took_in<F: FnOnce(&str, &GeoImage) -> T>(
        self,
        before: SentinelLayer<T>,
        event: SentinelEvent,
        load: F,
    ) -> bool {
        match event {
            SentinelEvent::SceneFound { scene_id, bounds: _, cloud_cover, datetime, cog_url } => {
                &&& self.visible == before.visible
                &&& self.opacity == before.opacity
                &&& self.scene_id == Some(scene_id)
                &&& self.cloud_cover == Some(cloud_cover)
                &&& self.scene_datetime == Some(datetime)
                &&& self.cog_url == Some(cog_url)
                &&& self.tiles@ == Map::<TileId, T>::empty()
                &&& self.tile_bounds@ == Map::<TileId, GeoBounds>::empty()
            },
            SentinelEvent::TileReady { z, x, y, image } => {
                let id = TileId { z, x, y };
                &&& self.same_scene(before)
                &&& self.tile_bounds@ == before.tile_bounds@.insert(id, image.bounds)
                &&& exists|name: &str, texture: T|
                    {
                        &&& name@ == sentinel_texture(id)
                        &&& #[trigger] load.ensures((name, &image), texture)
                        &&& self.tiles@ == before.tiles@.insert(id, texture)
                    }
            },
            SentinelEvent::Error(_) => {
                &&& self.same_scene(before)
                &&& self.tiles@ == before.tiles@
                &&& self.tile_bounds@ == before.tile_bounds@
            },
        }
    }

    /// Takes in an event of the fetch. A new scene starts without tiles. A
    /// tile that arrived is turned into a texture by `load`, which is given
    /// the texture's name and the image.
    pub fn handle_event<F: FnOnce(&str, &GeoImage) -> T>(&mut self, event: SentinelEvent, load: F)
        requires
            event.wf(),
            forall|name: &str, image: &GeoImage|
                image.wf() ==> #[trigger] load.requires((name, image)),
        ensures
            final(self).took_in(*old(self), event, load),
            old(self).wf() ==> final(self).wf(),
    {
        match event {
            SentinelEvent::SceneFound { scene_id, bounds: _, cloud_cover, datetime, cog_url } => {
                self.scene_id = Some(scene_id);
                self.cloud_cover = Some(cloud_cover);
                self.scene_datetime = Some(datetime);
                self.cog_url = Some(cog_url);
                self.tiles.clear();
                self.tile_bounds.clear();
                assert(self.tiles@.dom() =~= self.tile_bounds@.dom());
            },
            SentinelEvent::TileReady { z, x, y, image } => {
                let id = TileId { z, x, y };
                let name = sentinel_texture_name(&id);
                let bounds = image.bounds;
                let texture = load(name.as_str(), &image);
                self.tiles.insert(id, texture);
                self.tile_bounds.insert(id, bounds);
                assert(old(self).wf() ==> self.tiles@.dom() =~= self.tile_bounds@.dom());
            },
            SentinelEvent::Error(_) => {},
        }
    }

    /// What the layer draws this frame.
    pub fn plugin(&self) -> (r: SentinelPlugin<'_, T>)
        ensures
            r.tiles@ == self.tiles@,
            r.tile_bounds@ == self.tile_bounds@,
            r.visible == self.visible,
            r.opacity == self.opacity,
    {
        SentinelPlugin {
            tiles: &self.tiles,
            tile_bounds: &self.tile_bounds,
            visible: self.visible,
            opacity: self.opacity,
        }
    }
}

/// The places of the tiles that arrived since the last scene, each that of its
/// latest image.
pub open spec fn arrived(events: Seq<SentinelEvent>) -> Map<TileId, GeoBounds>
    decreases events.len(),
{
    if events.len() == 0 {
        Map::empty()
    } else {
        match events.last() {
            SentinelEvent::SceneFound { .. } => Map::empty(),
            SentinelEvent::TileReady { z, x, y, image } => arrived(events.drop_last()).insert(
                TileId { z, x, y },
                image.bounds,
            ),
            SentinelEvent::Error(_) => arrived(events.drop_last()),
        }
    }
}

/// The last scene that was found.
pub open spec fn last_scene(events: Seq<SentinelEvent>) -> Option<SentinelEvent>
    decreases events.len(),
{
    if events.len() == 0 {
        None
    } else if events.last() is SceneFound {
        Some(events.last())
    } else {
        last_scene(events.drop_last())
    }
}

/// The event brings the tile.
pub open spec fn brings(event: SentinelEvent, id: TileId) -> bool {
    event matches SentinelEvent::TileReady { z, x, y, .. } && id == (TileId { z, x, y })
}

/// Event `i` is the latest that brought the tile, and no scene was found since.
pub open spec fn is_latest(events: Seq<SentinelEvent>, i: int, id: TileId) -> bool {
    &&& 0 <= i < events.len()
    &&& brings(events[i], id)
    &&& forall|j: int|
        i < j < events.len() ==> !(#[trigger] events[j] is SceneFound) && !brings(events[j], id)
}

/// A tile has arrived exactly if some event is the latest that brought it, and
/// its place is that of this event's image.
pub proof fn arrived_since_the_last_scene(events: Seq<SentinelEvent>, id: TileId)
    ensures
        arrived(events).contains_key(id) <==> exists|i: int| is_latest(events, i, id),
        forall|i: int| #[trigger]
            is_latest(events, i, id) ==> arrived(events)[id] == events[i]->image.bounds,
    decreases events.len(),
{
    if events.len() > 0 {
        let rest = events.drop_last();
        let last = events.len() - 1;
        arrived_since_the_last_scene(rest, id);
        assert forall|i: int| i < last && !(events[last] is SceneFound) && !brings(
            events[last],
            id,
        ) implies is_latest(rest, i, id) == #[trigger] is_latest(events, i, id) by {
            assert forall|j: int| 0 <= j < rest.len() implies rest[j] == #[trigger] events[j] by {
            }
            if is_latest(rest, i, id) {
                assert forall|j: int| i < j < events.len() implies !(
                #[trigger] events[j] is SceneFound) && !brings(events[j], id) by {
                    if j < last {
                        assert(rest[j] == events[j]);
                    }
                }
            }
            if is_latest(events, i, id) {
                assert forall|j: int| i < j < rest.len() implies !(
                #[trigger] rest[j] is SceneFound) && !brings(rest[j], id) by {
                    assert(rest[j] == events[j]);
                }
            }
        }
        if brings(events[last], id) {
            assert(is_latest(events, last, id));
            assert forall|i: int| #[trigger] is_latest(events, i, id) implies i == last by {
            }
        } else if !(events[last] is SceneFound) {
            if exists|i: int| is_latest(rest, i, id) {
                let i = choose|i: int| is_latest(rest, i, id);
                assert(is_latest(events, i, id));
            }
            if exists|i: int| is_latest(events, i, id) {
                let i = choose|i: int| is_latest(events, i, id);
                assert(is_latest(rest, i, id));
            }
            assert forall|i: int| #[trigger] is_latest(events, i, id) implies arrived(events)[id]
                == events[i]->image.bounds by {
                assert(is_latest(rest, i, id));
                assert(rest[i] == events[i]);
            }
        } else {
            assert forall|i: int| !#[trigger] is_latest(events, i, id) by {
                if 0 <= i < last {
                    assert(events[last] is SceneFound);
                }
            }
        }
    }
}

/// However many events a new layer takes in, the tiles it holds are those that
/// arrived since the last scene, each with a texture and with the place of its
/// latest image, and what it says of the scene is what the last scene said.
pub proof fn layer_holds_what_arrived<T, F: FnOnce(&str, &GeoImage) -> T>(
    layers: Seq<SentinelLayer<T>>,
    events: Seq<SentinelEvent>,
    loads: Seq<F>,
)
    requires
        layers.len() == events.len() + 1,
        loads.len() == events.len(),
        layers[0].is_new(),
        forall|i: int|
            0 <= i < events.len() ==> (#[trigger] layers[i + 1]).took_in(
                layers[i],
                events[i],
                loads[i],
            ),
    ensures
        layers.last().tile_bounds@ == arrived(events),
        layers.last().tiles@.dom() == arrived(events).dom(),
        layers.last().visible == layers[0].visible,
        layers.last().opacity == layers[0].opacity,
        match last_scene(events) {
            Some(SentinelEvent::SceneFound { scene_id, cloud_cover, datetime, cog_url, .. }) => {
                &&& layers.last().scene_id == Some(scene_id)
                &&& layers.last().cloud_cover == Some(cloud_cover)
                &&& layers.last().scene_datetime == Some(datetime)
                &&& layers.last().cog_url == Some(cog_url)
            },
            _ => layers.last().same_scene(layers[0]),
        },
    decreases events.len(),
{
    if events.len() > 0 {
        let n = events.len() as int;
        let before = layers.drop_last();
        assert forall|i: int| 0 <= i < n - 1 implies (#[trigger] before[i + 1]).took_in(
            before[i],
            events.drop_last()[i],
            loads.drop_last()[i],
        ) by {
            assert(layers[i + 1].took_in(layers[i], events[i], loads[i]));
        }
        layer_holds_what_arrived(before, events.drop_last(), loads.drop_last());
        assert(layers[(n - 1) + 1].took_in(layers[n - 1], events[n - 1], loads[n - 1]));
        assert(before.last() == layers[n - 1]);
    }
    assert(layers.last().tiles@.dom() =~= arrived(events).dom());
}

/// The name of a satellite tile's texture.
pub fn sentinel_texture_name(id: &TileId) -> (r: String)
    ensures
        r@ == sentinel_texture(*id),
        r@ == "sentinel_"@ + decimal(id.z as nat) + "_"@ + decimal(id.x as nat) + "_"@ + decimal(
            id.y as nat,
        ),
{
    let mut r = "sentinel_".to_owned();
    push_decimal(&mut r, id.z as u64);
    r.append("_");
    push_decimal(&mut r, id.x as u64);
    r.append("_");
    push_decimal(&mut r, id.y as u64);
    r
}

/// Two satellite tiles have the same texture name only if they are the same
/// tile.
pub proof fn sentinel_textures_differ(a: TileId, b: TileId)
    requires
        sentinel_texture(a) == sentinel_texture(b),
    ensures
        a == b,
{
    reveal_strlit("_");
    assert(sentinel_texture(a) + Seq::<char>::empty() =~= sentinel_texture(a));
    assert(sentinel_texture(b) + Seq::<char>::empty() =~= sentinel_texture(b));
    three_numbers_are_readable(
        "sentinel_"@,
        "sentinel_"@,
        "_"@,
        Seq::empty(),
        (a.z as nat, a.x as nat, a.y as nat),
        (b.z as nat, b.x as nat, b.y as nat),
    );
}

/// The satellite layer for one frame.
pub struct SentinelPlugin<'a, T> {
    pub tiles: &'a TileMap<T>,
    pub tile_bounds: &'a TileMap<GeoBounds>,
    pub visible: bool,
    pub opacity: Binary32,
}

/// A satellite tile to draw: its texture and where it lies on the map.
pub struct TileImage<'a, T> {
    pub id: TileId,
    pub texture: &'a T,
    pub bounds: GeoBounds,
}

impl<'a, T> SentinelPlugin<'a, T> {
    /// The tile has a texture and a place on the map, and the layer is shown.
    pub open spec fn draws(self, id: TileId) -> bool {
        self.visible && self.tiles@.contains_key(id) && self.tile_bounds@.contains_key(id)
    }

    /// The tiles to draw, each once, in no particular order: none while the
    /// layer is hidden.
    pub fn images(&self) -> (r: Vec<TileImage<'a, T>>)
        ensures
            forall|i: int|
                0 <= i < r@.len() ==> {
                    let image = #[trigger] r@[i];
                    &&& self.draws(image.id)
                    &&& *image.texture == self.tiles@[image.id]
                    &&& image.bounds == self.tile_bounds@[image.id]
                },
            forall|i: int, j: int|
                0 <= i < j < r@.len() ==> (#[trigger] r@[i]).id != (#[trigger] r@[j]).id,
            forall|id: TileId| #[trigger]
                self.draws(id) ==> exists|i: int| 0 <= i < r@.len() && (#[trigger] r@[i]).id == id,
    {
        let mut images: Vec<TileImage<'a, T>> = Vec::new();
        if !self.visible {
            return images;
        }
        let ids = self.tiles.ids();
        let n: usize = ids.len();
        for k in 0..n
            invariant
                self.visible,
                n == ids@.len(),
                ids@.no_duplicates(),
                ids@.to_set() == self.tiles@.dom(),
                forall|i: int|
                    0 <= i < images@.len() ==> {
                        let image = #[trigger] images@[i];
                        &&& self.draws(image.id)
                        &&& *image.texture == self.tiles@[image.id]
                        &&& image.bounds == self.tile_bounds@[image.id]
                        &&& exists|j: int| 0 <= j < k && #[trigger] ids@[j] == image.id
                    },
                forall|i: int, j: int|
                    0 <= i < j < images@.len() ==> (#[trigger] images@[i]).id != (
                    #[trigger] images@[j]).id,
                forall|j: int|
                    0 <= j < k && self.draws(#[trigger] ids@[j]) ==> exists|i: int|
                        0 <= i < images@.len() && (#[trigger] images@[i]).id == ids@[j],
        {
            let id = ids[k];
            let ghost before = images@;
            assert(ids@.to_set().contains(ids@[k as int]));
            if let Some(texture) = self.tiles.get(&id) {
                if let Some(bounds) = self.tile_bounds.get(&id) {
                    images.push(TileImage { id, texture, bounds: *bounds });
                    assert(images@[images@.len() - 1].id == ids@[k as int]);
                }
            }
            assert forall|j: int| 0 <= j < k + 1 && self.draws(#[trigger] ids@[j]) implies exists|
                i: int,
            | 0 <= i < images@.len() && (#[trigger] images@[i]).id == ids@[j] by {
                if j < k {
                    let i = choose|i: int| 0 <= i < before.len() && (#[trigger] before[i]).id == ids@[j];
                    assert(images@[i].id == ids@[j]);
                }
            }
        }
        assert forall|id: TileId| #[trigger] self.draws(id) implies exists|i: int|
            0 <= i < images@.len() && (#[trigger] images@[i]).id == id by {
            assert(ids@.to_set().contains(id));
            let j = choose|j: int| 0 <= j < ids@.len() && ids@[j] == id;
            assert(self.draws(ids@[j]));
        }
        images
    }
}

/// The radar layer: the frames of the loop, and textures for those that were
/// shown, by position.
pub struct RadarLayer<T> {
    pub visible: bool,
    pub opacity: Binary32,
    pub store: RadarFrameStore,
    pub textures: HashMap<usize, T>,
}

/// The name of a radar frame's texture.
pub open spec fn radar_texture(at: Timestamp) -> Seq<char> {
    "nexrad_"@ + signed_decimal(at.secs as int)
}

/// The name of a radar frame's texture.
pub fn radar_texture_name(at: &Timestamp) -> (r: String)
    ensures
        r@ == radar_texture(*at),
        r@ == "nexrad_"@ + signed_decimal(at.secs as int),
{
    let mut r = "nexrad_".to_owned();
    push_signed_decimal(&mut r, at.secs);
    r
}

/// Two radar frames have the same texture name only if they are of the same
/// second.
pub proof fn radar_textures_differ(a: Timestamp, b: Timestamp)
    requires
        radar_texture(a) == radar_texture(b),
    ensures
        a.secs == b.secs,
{
    let n = "nexrad_"@.len() as int;
    assert(radar_texture(a).skip(n) =~= signed_decimal(a.secs as int));
    assert(radar_texture(b).skip(n) =~= signed_decimal(b.secs as int));
    signed_decimal_round_trips(a.secs as int);
    signed_decimal_round_trips(b.secs as int);
}

impl<T> RadarLayer<T> {
    /// The frames are in order, and have their time and all their pixels.
    pub open spec fn in_order(self) -> bool {
        &&& self.store.sorted()
        &&& forall|i: int|
            0 <= i < self.store.frames@.len() ==> (#[trigger] self.store.frames@[i]).wf()
    }

    /// The frames are in order, one of them is the current one, and textures
    /// belong to frames.
    pub open spec fn wf(self) -> bool {
        &&& self.in_order()
        &&& self.store.wf()
        &&& forall|i: usize| #[trigger]
            self.textures@.contains_key(i) ==> i < self.store.frames@.len()
    }

    /// The layer is `before` with the frame at `index` as the current one.
    pub open spec fn shows(self, before: RadarLayer<T>, index: int) -> bool {
        &&& self.visible == before.visible
        &&& self.opacity == before.opacity
        &&& self.textures@ == before.textures@
        &&& self.store.frames@ == before.store.frames@
        &&& self.store.current_index == index
    }

    /// A visible layer at three fifths opacity, without frames.
    pub fn new() -> (r: RadarLayer<T>)
        ensures
            r.visible,
            r.opacity.bits == 0x3f19_999a,
            r.store.frames@.len() == 0,
            r.store.current_index == 0,
            r.textures@ == Map::<usize, T>::empty(),
            r.wf(),
    {
        RadarLayer {
            visible: true,
            opacity: Binary32 { bits: 0x3f19_999a },
            store: RadarFrameStore::default(),
            textures: HashMap::new(),
        }
    }

    /// The textures after one was wanted for the frame at `index`: a frame that
    /// has none gets what `load` makes of its name and its image.
    pub open spec fn textured<F: FnOnce(&str, &GeoImage) -> T>(
        self,
        index: usize,
        load: F,
        textures: Map<usize, T>,
    ) -> bool {
        if self.textures@.contains_key(index) || index >= self.store.frames@.len() {
            textures == self.textures@
        } else {
            let frame = self.store.frames@[index as int];
            exists|name: &str, texture: T|
                {
                    &&& name@ == radar_texture(frame.timestamp)
                    &&& #[trigger] load.ensures((name, &frame.image), texture)
                    &&& textures == self.textures@.insert(index, texture)
                }
        }
    }

    /// The layer is `before` after an event of the fetch.
    pub open spec fn took_in<F: FnOnce(&str, &GeoImage) -> T>(
        self,
        before: RadarLayer<T>,
        event: NexradEvent,
        load: F,
    ) -> bool {
        &&& self.visible == before.visible
        &&& self.opacity == before.opacity
        &&& self.store.current_index == before.store.current_index
        &&& match event {
            NexradEvent::FrameReady { timestamp, image } => {
                &&& self.store.frames@ == with_frame(
                    before.store.frames@,
                    (RadarFrame { timestamp, image }),
                )
                &&& (RadarLayer { store: self.store, ..before }).textured(
                    before.store.current_index,
                    load,
                    self.textures@,
                )
            },
            _ => {
                &&& self.store.frames@ == before.store.frames@
                &&& self.textures@ == before.textures@
            },
        }
    }

    /// Takes in an event of the fetch. A frame that arrived is stored, and the
    /// frame at the current position gets a texture, if it has none: `load` is
    /// given the texture's name and the image.
    pub fn handle_event<F: FnOnce(&str, &GeoImage) -> T>(&mut self, event: NexradEvent, load: F)
        requires
            old(self).in_order(),
            event.wf(),
            forall|name: &str, image: &GeoImage|
                image.wf() ==> #[trigger] load.requires((name, image)),
        ensures
            final(self).took_in(*old(self), event, load),
            final(self).in_order(),
            old(self).wf() ==> final(self).wf(),
    {
        match event {
            NexradEvent::FrameReady { timestamp, image } => {
                proof {
                    lemma_older_frames(self.store.frames@, timestamp);
                }
                self.store.insert(timestamp, image);
                let index = self.store.current_index;
                self.ensure_texture(index, load);
            },
            NexradEvent::FrameError { .. } => {},
            NexradEvent::FetchComplete => {},
        }
    }

    /// Shows the frame at `index`, if there is one.
    pub fn set_frame(&mut self, index: usize)
        ensures
            final(self).store.current_index == if index < old(self).store.frames@.len() {
                index
            } else {
                old(self).store.current_index
            },
            final(self).store.frames@ == old(self).store.frames@,
            final(self).textures@ == old(self).textures@,
            final(self).visible == old(self).visible,
            final(self).opacity == old(self).opacity,
            old(self).wf() ==> final(self).wf(),
    {
        if index < self.store.len() {
            self.store.current_index = index;
        }
    }

    fn ensure_texture<F: FnOnce(&str, &GeoImage) -> T>(&mut self, index: usize, load: F)
        requires
            old(self).in_order(),
            forall|name: &str, image: &GeoImage|
                image.wf() ==> #[trigger] load.requires((name, image)),
        ensures
            old(self).wf() ==> final(self).wf(),
            final(self).visible == old(self).visible,
            final(self).opacity == old(self).opacity,
            final(self).store == old(self).store,
            old(self).textured(index, load, final(self).textures@),
    {
        if self.textures.contains_key(&index) {
            return;
        }
        if index < self.store.frames.len() {
            let frame = &self.store.frames[index];
            let name = radar_texture_name(&frame.timestamp);
            let texture = load(name.as_str(), &frame.image);
            self.textures.insert(index, texture);
        }
    }

    /// The texture of the current frame, if it has one.
    pub fn current_texture_id(&self) -> (r: Option<&T>)
        ensures
            r == if self.textures@.contains_key(self.store.current_index) {
                Some(&self.textures@[self.store.current_index])
            } else {
                None
            },
    {
        self.textures.get(&self.store.current_index)
    }

    pub open spec fn current_time(self) -> Option<Timestamp> {
        if self.store.current_index < self.store.frames@.len() {
            Some(self.store.frames@[self.store.current_index as int].timestamp)
        } else {
            None
        }
    }

    /// The time of the current frame.
    pub fn current_timestamp(&self) -> (r: Option<Timestamp>)
        ensures
            r == self.current_time(),
            r is Some <==> self.store.current_index < self.store.frames@.len(),
            r matches Some(at) ==> at == self.store.frames@[self.store.current_index as int].timestamp,
    {
        match self.store.current() {
            Some(frame) => Some(frame.timestamp),
            None => None,
        }
    }

    /// What the layer draws this frame.
    pub fn plugin(&self) -> (r: RadarPlugin<'_, T>)
        ensures
            r.texture == if self.textures@.contains_key(self.store.current_index) {
                Some(&self.textures@[self.store.current_index])
            } else {
                None
            },
            r.visible == self.visible,
            r.opacity == self.opacity,
    {
        RadarPlugin {
            texture: self.current_texture_id(),
            visible: self.visible,
            opacity: self.opacity,
        }
    }

    pub fn frames(&self) -> (r: &[RadarFrame])
        ensures
            r@ == self.store.frames@,
    {
        self.store.frames.as_slice()
    }
}

/// The radar layer for one frame.
pub struct RadarPlugin<'a, T> {
    pub texture: Option<&'a T>,
    pub visible: bool,
    pub opacity: Binary32,
}

impl<'a, T> RadarPlugin<'a, T> {
    /// The texture to draw over the composites' extent: none while the layer is
    /// hidden or the current frame has no texture.
    pub fn image(&self) -> (r: Option<(&'a T, GeoBounds)>)
        ensures
            r == match self.texture {
                Some(texture) if self.visible => Some((texture, conus_bounds())),
                _ => None,
            },
    {
        if !self.visible {
            return None;
        }
        match self.texture {
            Some(texture) => Some((texture, nexrad_conus_bounds())),
            None => None,
        }
    }
}

/// The map with its layers.
pub struct MapView<T> {
    pub sentinel_layer: SentinelLayer<T>,
    pub radar_layer: RadarLayer<T>,
}

impl<T> MapView<T> {
    pub open spec fn wf(self) -> bool {
        self.sentinel_layer.wf() && self.radar_layer.wf()
    }

    /// Both layers are shown, without a scene and without frames.
    pub open spec fn is_new(self) -> bool {
        &&& self.wf()
        &&& self.sentinel_layer.is_new()
        &&& self.radar_layer.visible
        &&& self.radar_layer.opacity.bits == 0x3f19_999a
        &&& self.radar_layer.store.frames@.len() == 0
        &&& self.radar_layer.store.current_index == 0
        &&& self.radar_layer.textures@ == Map::<usize, T>::empty()
    }

    pub fn new() -> (r: MapView<T>)
        ensures
            r.is_new(),
    {
        MapView { sentinel_layer: SentinelLayer::new(), radar_layer: RadarLayer::new() }
    }
}

/// Scenes are shown at the zoom rounded to the nearest whole level from 1 to 18,
/// halves upwards.
pub proof fn zoom_level_is_nearest(viewport: MapViewport)
    ensures
        viewport.zoom.is_nan() ==> viewport.level() == 0,
        !viewport.zoom.is_nan() ==> 1 <= viewport.level() <= 18,
        !viewport.zoom.is_nan() && viewport.level() > 1 ==> (2 * viewport.level() - 1) * pow2(1074)
            <= 2 * viewport.zoom.value(),
        !viewport.zoom.is_nan() && viewport.level() < 18 ==> 2 * viewport.zoom.value() < (2
            * viewport.level() + 1) * pow2(1074),
{
    let v = viewport.zoom.value();
    let d = pow2(1074) as int;
    let q = round(v);
    lemma_pow2_pos(1074);
    round_is_nearest(v);
    if q > 18 {
        assert(35 * d <= (2 * q - 1) * d) by (nonlinear_arith)
            requires
                2 * q - 1 >= 35,
                d > 0,
        ;
    }
    if q < 1 {
        assert((2 * q + 1) * d < 3 * d) by (nonlinear_arith)
            requires
                2 * q + 1 <= 1,
                d > 0,
        ;
    }
}

/// Textures are named after the tile, or after the second of the frame.
pub proof fn textures_are_named_by_their_source(id: TileId, at: Timestamp)
    ensures
        sentinel_texture(id) == "sentinel_"@ + decimal(id.z as nat) + "_"@ + decimal(id.x as nat)
            + "_"@ + decimal(id.y as nat),
        radar_texture(at) == "nexrad_"@ + signed_decimal(at.secs as int),
{
}

/// A scene that was found is the one shown, without any tile.
pub proof fn found_scene_replaces_the_old<T, F: FnOnce(&str, &GeoImage) -> T>(
    before: SentinelLayer<T>,
    after: SentinelLayer<T>,
    event: SentinelEvent,
    load: F,
)
    requires
        event is SceneFound,
        after.took_in(before, event, load),
    ensures
        after.visible == before.visible,
        after.opacity == before.opacity,
        after.scene_id == Some(event->scene_id),
        after.cloud_cover == Some(event->cloud_cover),
        after.scene_datetime == Some(event->datetime),
        after.cog_url == Some(event->cog_url),
        forall|id: TileId| !#[trigger] after.tiles@.contains_key(id),
        forall|id: TileId| !#[trigger] after.tile_bounds@.contains_key(id),
{
}

/// A tile that arrived is held under its zoom, column and row, with the place of
/// its image and with what was made of it under its name. Every other tile, and
/// the scene, stay.
pub proof fn arrived_tile_is_held<T, F: FnOnce(&str, &GeoImage) -> T>(
    before: SentinelLayer<T>,
    after: SentinelLayer<T>,
    z: u8,
    x: u32,
    y: u32,
    image: GeoImage,
    load: F,
    id: TileId,
)
    requires
        after.took_in(before, SentinelEvent::TileReady { z, x, y, image }, load),
    ensures
        after.visible == before.visible,
        after.opacity == before.opacity,
        after.scene_id == before.scene_id,
        after.cloud_cover == before.cloud_cover,
        after.scene_datetime == before.scene_datetime,
        after.cog_url == before.cog_url,
        id == (TileId { z, x, y }) ==> {
            &&& after.tiles@.contains_key(id)
            &&& after.tile_bounds@.contains_key(id)
            &&& after.tile_bounds@[id] == image.bounds
            &&& exists|name: &str|
                name@ == "sentinel_"@ + decimal(z as nat) + "_"@ + decimal(x as nat) + "_"@
                    + decimal(y as nat) && #[trigger] load.ensures(
                    (name, &image),
                    after.tiles@[id],
                )
        },
        id != (TileId { z, x, y }) ==> {
            &&& after.tiles@.contains_key(id) == before.tiles@.contains_key(id)
            &&& after.tile_bounds@.contains_key(id) == before.tile_bounds@.contains_key(id)
            &&& before.tiles@.contains_key(id) ==> after.tiles@[id] == before.tiles@[id]
            &&& before.tile_bounds@.contains_key(id) ==> after.tile_bounds@[id]
                == before.tile_bounds@[id]
        },
{
    let key = TileId { z, x, y };
    let (name, texture) = choose|name: &str, texture: T|
        {
            &&& name@ == sentinel_texture(key)
            &&& #[trigger] load.ensures((name, &image), texture)
            &&& after.tiles@ == before.tiles@.insert(key, texture)
        };
    assert(load.ensures((name, &image), texture));
    if id == key {
        assert(after.tiles@[id] == texture);
    }
}

/// An error changes nothing in the layer.
pub proof fn errors_leave_the_layer<T, F: FnOnce(&str, &GeoImage) -> T>(
    before: SentinelLayer<T>,
    after: SentinelLayer<T>,
    reason: String,
    load: F,
)
    requires
        after.took_in(before, SentinelEvent::Error(reason), load),
    ensures
        after.visible == before.visible,
        after.opacity == before.opacity,
        after.scene_id == before.scene_id,
        after.cloud_cover == before.cloud_cover,
        after.scene_datetime == before.scene_datetime,
        after.cog_url == before.cog_url,
        after.tiles@ == before.tiles@,
        after.tile_bounds@ == before.tile_bounds@,
{
}

/// A tile is drawn exactly if the layer is shown and the tile has a texture and
/// a place.
pub proof fn held_tiles_are_drawn<T>(plugin: SentinelPlugin<T>, id: TileId)
    ensures
        plugin.draws(id) <==> plugin.visible && plugin.tiles@.contains_key(id)
            && plugin.tile_bounds@.contains_key(id),
{
}

/// A frame that arrived is among the frames, and the only one of its time. Every
/// other frame, the position shown and the layer's settings stay.
pub proof fn arrived_frame_is_stored<T, F: FnOnce(&str, &GeoImage) -> T>(
    before: RadarLayer<T>,
    after: RadarLayer<T>,
    timestamp: Timestamp,
    image: GeoImage,
    load: F,
    f: RadarFrame,
)
    requires
        before.in_order(),
        after.took_in(before, NexradEvent::FrameReady { timestamp, image }, load),
    ensures
        after.visible == before.visible,
        after.opacity == before.opacity,
        after.store.current_index == before.store.current_index,
        after.store.frames@.contains((RadarFrame { timestamp, image })),
        f.timestamp != timestamp ==> (after.store.frames@.contains(f)
            <==> before.store.frames@.contains(f)),
        f.timestamp == timestamp && after.store.frames@.contains(f) ==> f.image == image,
{
    insert_keeps_the_others(before.store.frames@, RadarFrame { timestamp, image }, f);
}

/// When a frame arrived, the position shown gets a texture if it has a frame and
/// no texture yet: what is made of that frame under its name. Every other
/// texture stays.
pub proof fn shown_frame_gets_a_texture<T, F: FnOnce(&str, &GeoImage) -> T>(
    before: RadarLayer<T>,
    after: RadarLayer<T>,
    timestamp: Timestamp,
    image: GeoImage,
    load: F,
    i: usize,
)
    requires
        after.took_in(before, NexradEvent::FrameReady { timestamp, image }, load),
    ensures
        before.textures@.contains_key(i) ==> after.textures@.contains_key(i) && after.textures@[i]
            == before.textures@[i],
        !before.textures@.contains_key(i) ==> (after.textures@.contains_key(i) <==> i
            == before.store.current_index && i < after.store.frames@.len()),
        !before.textures@.contains_key(i) && after.textures@.contains_key(i) ==> {
            let frame = after.store.frames@[i as int];
            exists|name: &str|
                name@ == "nexrad_"@ + signed_decimal(frame.timestamp.secs as int)
                    && #[trigger] load.ensures((name, &frame.image), after.textures@[i])
        },
{
    let index = before.store.current_index;
    if !before.textures@.contains_key(index) && index < after.store.frames@.len() {
        let frame = after.store.frames@[index as int];
        let (name, texture) = choose|name: &str, texture: T|
            {
                &&& name@ == radar_texture(frame.timestamp)
                &&& #[trigger] load.ensures((name, &frame.image), texture)
                &&& after.textures@ == before.textures@.insert(index, texture)
            };
        assert(load.ensures((name, &frame.image), texture));
        if i == index {
            assert(after.textures@[i] == texture);
        }
    }
}

/// A frame that failed, and the end of a fetch, change nothing in the layer.
pub proof fn other_radar_events_leave_the_layer<T, F: FnOnce(&str, &GeoImage) -> T>(
    before: RadarLayer<T>,
    after: RadarLayer<T>,
    event: NexradEvent,
    load: F,
)
    requires
        !(event is FrameReady),
        after.took_in(before, event, load),
    ensures
        after.visible == before.visible,
        after.opacity == before.opacity,
        after.store.current_index == before.store.current_index,
        after.store.frames@ == before.store.frames@,
        after.textures@ == before.textures@,
{
}

/// To show another frame changes the position and nothing else.
pub proof fn showing_changes_the_position<T>(before: RadarLayer<T>, after: RadarLayer<T>, i: int)
    requires
        after.shows(before, i),
    ensures
        after.store.current_index == i,
        after.store.frames@ == before.store.frames@,
        after.textures@ == before.textures@,
        after.visible == before.visible,
        after.opacity == before.opacity,
{
}

/// The frames of a layer are in order exactly if they are sorted and each has
/// its time and its picture. Events can be taken in then.
pub proof fn layers_in_order<T>(layer: RadarLayer<T>)
    ensures
        layer.in_order() <==> is_sorted(layer.store.frames@) && forall|i: int|
            0 <= i < layer.store.frames@.len() ==> (#[trigger] layer.store.frames@[i]).wf(),
        layer.store.frames@.len() == 0 ==> layer.in_order(),
{
}

/// The time shown is that of the frame at the position shown.
pub proof fn shown_time_is_that_of_the_frame<T>(layer: RadarLayer<T>)
    ensures
        layer.store.current_index < layer.store.frames@.len() ==> layer.current_time() == Some(
            layer.store.frames@[layer.store.current_index as int].timestamp,
        ),
        layer.store.current_index >= layer.store.frames@.len() ==> layer.current_time() is None,
{
}

/// A new map shows both layers, the satellite at an opacity of 0.8 and the radar
/// at 0.6 (`0x3f4c_cccd` and `0x3f19_999a` in single precision), without a scene,
/// tiles, frames or textures.
pub proof fn new_map_is_empty<T>(view: MapView<T>)
    requires
        view.is_new(),
    ensures
        view.sentinel_layer.visible && view.radar_layer.visible,
        view.sentinel_layer.opacity.bits == 0x3f4c_cccd,
        view.radar_layer.opacity.bits == 0x3f19_999a,
        view.sentinel_layer.scene_id is None && view.sentinel_layer.cog_url is None,
        view.sentinel_layer.cloud_cover is None && view.sentinel_layer.scene_datetime is None,
        forall|id: TileId| !#[trigger] view.sentinel_layer.tiles@.contains_key(id),
        forall|id: TileId| !#[trigger] view.sentinel_layer.tile_bounds@.contains_key(id),
        view.radar_layer.store.frames@.len() == 0,
        view.radar_layer.store.current_index == 0,
        forall|i: usize| !#[trigger] view.radar_layer.textures@.contains_key(i),
{
}

/// What a layer keeps: the satellite tiles with a texture are those with a place,
/// and the radar's textures belong to frames, one of which is shown as soon as
/// there is one.
pub proof fn layers_keep_their_shape<T>(sentinel: SentinelLayer<T>, radar: RadarLayer<T>)
    ensures
        sentinel.wf() <==> forall|id: TileId|
            sentinel.tiles@.contains_key(id) <==> #[trigger] sentinel.tile_bounds@.contains_key(id),
        radar.wf() <==> {
            &&& radar.in_order()
            &&& radar.store.current_index < radar.store.frames@.len() || (
            radar.store.current_index == 0 && radar.store.frames@.len() == 0)
            &&& forall|i: usize| #[trigger]
                radar.textures@.contains_key(i) ==> i < radar.store.frames@.len()
        },
{
    if forall|id: TileId|
        sentinel.tiles@.contains_key(id) <==> #[trigger] sentinel.tile_bounds@.contains_key(id) {
        assert(sentinel.tiles@.dom() =~= sentinel.tile_bounds@.dom()) by {
            assert forall|id: TileId| sentinel.tiles@.dom().contains(id)
                <==> sentinel.tile_bounds@.dom().contains(id) by {
                assert(sentinel.tiles@.contains_key(id)
                    <==> sentinel.tile_bounds@.contains_key(id));
            }
        }
    }
    if sentinel.wf() {
        assert forall|id: TileId|
            sentinel.tiles@.contains_key(id) <==> #[trigger] sentinel.tile_bounds@.contains_key(
                id,
            ) by {
            assert(sentinel.tiles@.dom().contains(id) <==> sentinel.tile_bounds@.dom().contains(
                id,
            ));
        }
    }
}

} // verus!
