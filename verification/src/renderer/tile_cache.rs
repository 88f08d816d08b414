//! The cache of base-map tiles: what is loaded, what is on its way, and what
//! has to be asked for.

#[allow(unused_imports)]
use crate::data::{decoded_image, rgba_len};
use crate::data::{load_raster, Raster};
use crate::http::{http_error, HttpFailure};
use crate::text::push_decimal;
#[allow(unused_imports)]
use crate::text::{decimal, three_numbers_are_readable};
pub use crate::tiles::TileId;
use crate::tiles::{TileMap, TileSet};
use vstd::prelude::*;
use vstd::string::*;

verus! {

/// What became of the request for a tile.
pub enum TileEvent {
    Ready { id: TileId, pixels: Vec<u8>, width: u32, height: u32 },
    Error { id: TileId, error: String },
}

impl TileEvent {
    pub open spec fn tile(self) -> TileId {
        match self {
            TileEvent::Ready { id, .. } => id,
            TileEvent::Error { id, .. } => id,
        }
    }

    /// The pixels of a tile are all there, and nothing else.
    pub open spec fn wf(self) -> bool {
        self matches TileEvent::Ready { pixels, width, height, .. } ==> pixels@.len() == rgba_len(
            width,
            height,
        )
    }
}

/// The name of a tile's texture.
pub open spec fn texture_label(id: TileId) -> Seq<char> {
    "osm_"@ + decimal(id.z as nat) + "_"@ + decimal(id.x as nat) + "_"@ + decimal(id.y as nat)
}

/// The name of a tile's texture.
pub fn tile_label(id: &TileId) -> (r: String)
    ensures
        r@ == texture_label(*id),
        r@ == "osm_"@ + decimal(id.z as nat) + "_"@ + decimal(id.x as nat) + "_"@ + decimal(
            id.y as nat,
        ),
{
    let mut r = "osm_".to_owned();
    push_decimal(&mut r, id.z as u64);
    r.append("_");
    push_decimal(&mut r, id.x as u64);
    r.append("_");
    push_decimal(&mut r, id.y as u64);
    r
}

/// One of the events is about the tile.
pub open spec fn settles(events: Seq<TileEvent>, id: TileId) -> bool {
    exists|i: int| 0 <= i < events.len() && (#[trigger] events[i]).tile() == id
}

/// Which event brought the tile, counted from the first: the last one, where
/// there are several.
pub open spec fn last_ready(events: Seq<TileEvent>, id: TileId) -> Option<int>
    decreases events.len(),
{
    if events.len() == 0 {
        None
    } else if events.last() is Ready && events.last().tile() == id {
        Some(events.len() - 1)
    } else {
        last_ready(events.drop_last(), id)
    }
}

/// `texture` is what `upload` made of the tile that `event` brought.
pub open spec fn is_uploaded<T, F: Fn(&str, &Vec<u8>, u32, u32) -> T>(
    upload: F,
    event: TileEvent,
    texture: T,
) -> bool {
    event matches TileEvent::Ready { id, pixels, width, height } && exists|label: &str|
        label@ == texture_label(id) && #[trigger] upload.ensures(
            (label, &pixels, width, height),
            texture,
        )
}

proof fn lemma_settles(events: Seq<TileEvent>, id: TileId)
    requires
        events.len() > 0,
    ensures
        settles(events, id) <==> settles(events.drop_last(), id) || events.last().tile() == id,
{
    let rest = events.drop_last();
    if settles(events, id) && events.last().tile() != id {
        let i = choose|i: int| 0 <= i < events.len() && (#[trigger] events[i]).tile() == id;
        assert(rest[i].tile() == id);
    }
    if settles(rest, id) {
        let i = choose|i: int| 0 <= i < rest.len() && (#[trigger] rest[i]).tile() == id;
        assert(events[i].tile() == id);
    }
    if events.last().tile() == id {
        assert(events[events.len() - 1].tile() == id);
    }
}

proof fn lemma_last_ready(events: Seq<TileEvent>, id: TileId)
    ensures
        match last_ready(events, id) {
            Some(i) => 0 <= i < events.len() && events[i] is Ready && events[i].tile() == id
                && forall|j: int|
                i < j < events.len() && (#[trigger] events[j]).tile() == id ==> events[j] is Error,
            None => forall|j: int|
                0 <= j < events.len() && (#[trigger] events[j]).tile() == id ==> events[j] is Error,
        },
    decreases events.len(),
{
    if events.len() > 0 {
        let rest = events.drop_last();
        lemma_last_ready(rest, id);
        assert forall|j: int| 0 <= j < rest.len() implies rest[j] == #[trigger] events[j] by {
        }
    }
}

/// The tiles that are loaded, each with its texture, and those in flight.
pub struct TileCache<T> {
    pub pending: TileSet,
    pub tiles: TileMap<T>,
}

impl<T> TileCache<T> {
    /// No tile is both loaded and in flight.
    pub open spec fn wf(self) -> bool {
        forall|id: TileId| #[trigger] self.tiles@.contains_key(id) ==> !self.pending@.contains(id)
    }

    /// The tile is loaded or in flight.
    pub open spec fn is_known(self, id: TileId) -> bool {
        self.tiles@.contains_key(id) || self.pending@.contains(id)
    }

    pub fn new() -> (r: TileCache<T>)
        ensures
            r.pending@ == Set::<TileId>::empty(),
            r.tiles@ == Map::<TileId, T>::empty(),
            r.wf(),
    {
        TileCache { pending: TileSet::new(), tiles: TileMap::new() }
    }

    /// Notes that `id` is wanted. The answer says whether it has to be
    /// fetched: not if it is already loaded or in flight.
    pub fn request(&mut self, id: TileId) -> (r: bool)
        ensures
            r == !old(self).is_known(id),
            r <==> !old(self).tiles@.contains_key(id) && !old(self).pending@.contains(id),
            final(self).is_known(id),
            final(self).pending@ == if r {
                old(self).pending@.insert(id)
            } else {
                old(self).pending@
            },
            final(self).tiles@ == old(self).tiles@,
            old(self).wf() ==> final(self).wf(),
    {
        if self.tiles.contains(&id) || self.pending.contains(&id) {
            return false;
        }
        self.pending.insert(id);
        true
    }

    /// The cache is `before` after a queue of events. The tiles they are about
    /// are no longer in flight, and each that arrived is loaded, with the
    /// texture of its last arrival. The others are as they were.
    pub open spec fn is_flushed<F: Fn(&str, &Vec<u8>, u32, u32) -> T>(
        self,
        before: TileCache<T>,
        events: Seq<TileEvent>,
        upload: F,
    ) -> bool {
        &&& forall|id: TileId| #[trigger]
            self.pending@.contains(id) <==> before.pending@.contains(id) && !settles(events, id)
        &&& forall|id: TileId| #[trigger]
            self.tiles@.contains_key(id) <==> before.tiles@.contains_key(id) || last_ready(
                events,
                id,
            ) is Some
        &&& forall|id: TileId| #[trigger]
            self.tiles@.contains_key(id) ==> match last_ready(events, id) {
                Some(i) => is_uploaded(upload, events[i], self.tiles@[id]),
                None => self.tiles@[id] == before.tiles@[id],
            }
        &&& before.wf() ==> self.wf()
    }

    /// Takes in what became of the requests, in order. A tile that arrived is
    /// turned into a texture by `upload`, which is given the texture's name,
    /// the pixels, the width and the height.
    pub fn flush<F: Fn(&str, &Vec<u8>, u32, u32) -> T>(&mut self, events: Vec<TileEvent>, upload: F)
        requires
            forall|i: int| 0 <= i < events@.len() ==> (#[trigger] events@[i]).wf(),
            forall|label: &str, pixels: &Vec<u8>, width: u32, height: u32|
                pixels@.len() == rgba_len(width, height) ==> #[trigger] upload.requires(
                    (label, pixels, width, height),
                ),
        ensures
            final(self).is_flushed(*old(self), events@, upload),
    {
        let n: usize = events.len();
        assert(events@.take(0) =~= Seq::<TileEvent>::empty());
        for k in 0..n
            invariant
                n == events@.len(),
                forall|i: int| 0 <= i < events@.len() ==> (#[trigger] events@[i]).wf(),
                forall|label: &str, pixels: &Vec<u8>, width: u32, height: u32|
                    pixels@.len() == rgba_len(width, height) ==> #[trigger] upload.requires(
                        (label, pixels, width, height),
                    ),
                self.is_flushed(*old(self), events@.take(k as int), upload),
        {
            let ghost before = events@.take(k as int);
            let ghost after = events@.take(k + 1);
            proof {
                assert(after.drop_last() =~= before);
                assert(after.last() == events@[k as int]);
                assert forall|id: TileId| #[trigger] settles(after, id) <==> settles(before, id)
                    || id == events@[k as int].tile() by {
                    lemma_settles(after, id);
                }
                assert forall|id: TileId| (#[trigger] last_ready(before, id)) is Some implies {
                    let i = last_ready(before, id)->0;
                    0 <= i < k && before[i] == after[i]
                } by {
                    lemma_last_ready(before, id);
                }
            }
            match &events[k] {
                TileEvent::Ready { id, pixels, width, height } => {
                    self.pending.remove(id);
                    let label = tile_label(id);
                    let texture = upload(label.as_str(), pixels, *width, *height);
                    assert(is_uploaded(upload, events@[k as int], texture));
                    self.tiles.insert(*id, texture);
                },
                TileEvent::Error { id, error: _ } => {
                    self.pending.remove(id);
                },
            }
        }
        assert(events@.take(n as int) =~= events@);
    }

    /// The texture of a tile, if it is loaded.
    pub fn get(&self, id: &TileId) -> (r: Option<&T>)
        ensures
            r == if self.tiles@.contains_key(*id) {
                Some(&self.tiles@[*id])
            } else {
                None
            },
    {
        self.tiles.get(id)
    }

    /// Drops every loaded tile that is not in `keep`.
    pub fn evict(&mut self, keep: &TileSet)
        ensures
            final(self).tiles@ == old(self).tiles@.restrict(keep@),
            final(self).pending@ == old(self).pending@,
            old(self).wf() ==> final(self).wf(),
    {
        let ids = self.tiles.ids();
        let n: usize = ids.len();
        for i in 0..n
            invariant
                n == ids@.len(),
                ids@.to_set() == old(self).tiles@.dom(),
                self.pending@ == old(self).pending@,
                forall|id: TileId| #[trigger]
                    self.tiles@.contains_key(id) ==> old(self).tiles@.contains_key(id)
                        && self.tiles@[id] == old(self).tiles@[id],
                forall|id: TileId| #[trigger]
                    old(self).tiles@.contains_key(id) && keep@.contains(id)
                        ==> self.tiles@.contains_key(id),
                forall|j: int|
                    0 <= j < i && !keep@.contains(#[trigger] ids@[j])
                        ==> !self.tiles@.contains_key(ids@[j]),
        {
            if !keep.contains(&ids[i]) {
                self.tiles.remove(&ids[i]);
            }
        }
        proof {
            let kept = old(self).tiles@.restrict(keep@);
            assert forall|id: TileId| self.tiles@.contains_key(id) == kept.contains_key(id) by {
                if self.tiles@.contains_key(id) && !keep@.contains(id) {
                    assert(ids@.to_set().contains(id));
                    let j = choose|j: int| 0 <= j < ids@.len() && ids@[j] == id;
                    assert(!keep@.contains(ids@[j]));
                }
            }
            assert(self.tiles@ =~= kept);
        }
    }
}

/// A queue of events about tiles in flight, one for each tile, settles all of
/// them. A tile that is ready is loaded and no longer in flight. One that failed
/// is neither, so that a later request fetches it again. Every other tile is as
/// it was. Still no tile is both loaded and in flight.
pub proof fn queue_settles_its_tiles<T, F: Fn(&str, &Vec<u8>, u32, u32) -> T>(
    before: TileCache<T>,
    after: TileCache<T>,
    events: Seq<TileEvent>,
    upload: F,
)
    requires
        before.wf(),
        forall|i: int| 0 <= i < events.len() ==> before.pending@.contains((#[trigger] events[i]).tile()),
        forall|i: int, j: int|
            0 <= i < j < events.len() ==> (#[trigger] events[i]).tile() != (
            #[trigger] events[j]).tile(),
        after.is_flushed(before, events, upload),
    ensures
        forall|i: int|
            0 <= i < events.len() ==> {
                let event = #[trigger] events[i];
                &&& !after.pending@.contains(event.tile())
                &&& after.tiles@.contains_key(event.tile()) == (event is Ready)
                &&& event is Ready ==> is_uploaded(upload, event, after.tiles@[event.tile()])
                &&& event is Error ==> !after.is_known(event.tile())
            },
        forall|id: TileId|
            !#[trigger] settles(events, id) ==> {
                &&& after.pending@.contains(id) == before.pending@.contains(id)
                &&& after.tiles@.contains_key(id) == before.tiles@.contains_key(id)
                &&& before.tiles@.contains_key(id) ==> after.tiles@[id] == before.tiles@[id]
            },
        after.wf(),
{
    assert forall|i: int| 0 <= i < events.len() implies {
        let event = #[trigger] events[i];
        &&& !after.pending@.contains(event.tile())
        &&& after.tiles@.contains_key(event.tile()) == (event is Ready)
        &&& event is Ready ==> is_uploaded(upload, event, after.tiles@[event.tile()])
        &&& event is Error ==> !after.is_known(event.tile())
    } by {
        let id = events[i].tile();
        lemma_last_ready(events, id);
        assert(settles(events, id));
        assert(!before.tiles@.contains_key(id));
        assert(!after.pending@.contains(id));
        match last_ready(events, id) {
            Some(j) => {
                assert(events[j].tile() == id);
                assert(j == i);
                assert(after.tiles@.contains_key(id));
            },
            None => {
                assert(events[i] is Error);
                assert(!after.tiles@.contains_key(id));
            },
        }
    }
    assert forall|id: TileId| !#[trigger] settles(events, id) implies {
        &&& after.pending@.contains(id) == before.pending@.contains(id)
        &&& after.tiles@.contains_key(id) == before.tiles@.contains_key(id)
        &&& before.tiles@.contains_key(id) ==> after.tiles@[id] == before.tiles@[id]
    } by {
        lemma_last_ready(events, id);
        if let Some(j) = last_ready(events, id) {
            assert(events[j].tile() == id);
        }
    }
}

/// The server that a tile is asked from.
pub open spec fn subdomain(id: TileId) -> Seq<char> {
    if (id.x + id.y) % 3 == 0 {
        "a"@
    } else if (id.x + id.y) % 3 == 1 {
        "b"@
    } else {
        "c"@
    }
}

/// Where a tile of the base map is published.
pub open spec fn osm_url(id: TileId) -> Seq<char> {
    "https://"@ + subdomain(id) + ".tile.openstreetmap.org/"@ + decimal(id.z as nat) + "/"@
        + decimal(id.x as nat) + "/"@ + decimal(id.y as nat) + ".png"@
}

/// The URL of a tile of the base map. The requests are spread over three
/// servers.
pub fn osm_tile_url(id: &TileId) -> (r: String)
    requires
        id.x + id.y <= u32::MAX,
    ensures
        r@ == osm_url(*id),
        r@ == "https://"@ + (if (id.x + id.y) % 3 == 0 {
            "a"@
        } else if (id.x + id.y) % 3 == 1 {
            "b"@
        } else {
            "c"@
        }) + ".tile.openstreetmap.org/"@ + decimal(id.z as nat) + "/"@ + decimal(id.x as nat) + "/"@
            + decimal(id.y as nat) + ".png"@,
{
    let mut r = "https://".to_owned();
    let server: u32 = (id.x + id.y) % 3;
    if server == 0 {
        r.append("a");
    } else if server == 1 {
        r.append("b");
    } else {
        r.append("c");
    }
    r.append(".tile.openstreetmap.org/");
    push_decimal(&mut r, id.z as u64);
    r.append("/");
    push_decimal(&mut r, id.x as u64);
    r.append("/");
    push_decimal(&mut r, id.y as u64);
    r.append(".png");
    r
}

/// What to report of a tile whose picture came out like this.
pub fn tile_event(id: TileId, outcome: Result<Raster, String>) -> (r: TileEvent)
    ensures
        match outcome {
            Ok(picture) => r == (TileEvent::Ready {
                id,
                pixels: picture.pixels,
                width: picture.width,
                height: picture.height,
            }),
            Err(error) => r == (TileEvent::Error { id, error }),
        },
{
    match outcome {
        Ok(picture) => TileEvent::Ready {
            id,
            pixels: picture.pixels,
            width: picture.width,
            height: picture.height,
        },
        Err(error) => TileEvent::Error { id, error },
    }
}

/// What to report of a tile that was downloaded as `bytes`.
pub fn downloaded_tile(id: TileId, bytes: &[u8]) -> (r: TileEvent)
    ensures
        r.tile() == id,
        r.wf(),
        match r {
            TileEvent::Ready { pixels, width, height, .. } => decoded_image(bytes@) == Ok::<
                (Seq<u8>, u32, u32),
                Seq<char>,
            >((pixels@, width, height)),
            TileEvent::Error { error, .. } => decoded_image(bytes@) == Err::<
                (Seq<u8>, u32, u32),
                Seq<char>,
            >(error@),
        },
{
    tile_event(id, load_raster(bytes))
}

/// What to report of a tile, from what came of its request: what was
/// downloaded, why the download broke off, or why there was no usable reply.
pub fn received_tile(id: TileId, reply: Result<Result<Vec<u8>, String>, HttpFailure>) -> (r:
    TileEvent)
    ensures
        r.tile() == id,
        r.wf(),
        match r {
            TileEvent::Ready { pixels, width, height, .. } => {
                &&& reply matches Ok(Ok(bytes))
                &&& decoded_image(bytes@) == Ok::<(Seq<u8>, u32, u32), Seq<char>>(
                    (pixels@, width, height),
                )
            },
            TileEvent::Error { error, .. } => match reply {
                Err(HttpFailure::Status(code)) => error@ == "HTTP "@ + decimal(code as nat),
                Err(HttpFailure::Transport(reason)) => error@ == reason@,
                Ok(Err(reason)) => error@ == reason@,
                Ok(Ok(bytes)) => decoded_image(bytes@) == Err::<(Seq<u8>, u32, u32), Seq<char>>(
                    error@,
                ),
            },
        },
{
    match reply {
        Err(HttpFailure::Status(code)) => tile_event(id, Err(http_error(code))),
        Err(HttpFailure::Transport(reason)) => tile_event(id, Err(reason)),
        Ok(Err(reason)) => tile_event(id, Err(reason)),
        Ok(Ok(bytes)) => downloaded_tile(id, bytes.as_slice()),
    }
}

/// Two tiles have the same URL only if they are the same tile.
pub proof fn tile_urls_differ(a: TileId, b: TileId)
    requires
        osm_url(a) == osm_url(b),
    ensures
        a == b,
{
    reveal_strlit("a");
    reveal_strlit("b");
    reveal_strlit("c");
    reveal_strlit("/");
    three_numbers_are_readable(
        "https://"@ + subdomain(a) + ".tile.openstreetmap.org/"@,
        "https://"@ + subdomain(b) + ".tile.openstreetmap.org/"@,
        "/"@,
        ".png"@,
        (a.z as nat, a.x as nat, a.y as nat),
        (b.z as nat, b.x as nat, b.y as nat),
    );
}

/// Two tiles have the same texture name only if they are the same tile.
pub proof fn texture_labels_differ(a: TileId, b: TileId)
    requires
        texture_label(a) == texture_label(b),
    ensures
        a == b,
{
    reveal_strlit("_");
    assert(texture_label(a) + Seq::<char>::empty() =~= texture_label(a));
    assert(texture_label(b) + Seq::<char>::empty() =~= texture_label(b));
    three_numbers_are_readable(
        "osm_"@,
        "osm_"@,
        "_"@,
        Seq::empty(),
        (a.z as nat, a.x as nat, a.y as nat),
        (b.z as nat, b.x as nat, b.y as nat),
    );
}

/// A tile's texture is named after its zoom, its column and its row, and its
/// picture is asked for under them, from one of three servers by turns.
pub proof fn tiles_are_named_by_their_place(id: TileId)
    ensures
        texture_label(id) == "osm_"@ + decimal(id.z as nat) + "_"@ + decimal(id.x as nat) + "_"@
            + decimal(id.y as nat),
        osm_url(id) == "https://"@ + subdomain(id) + ".tile.openstreetmap.org/"@ + decimal(
            id.z as nat,
        ) + "/"@ + decimal(id.x as nat) + "/"@ + decimal(id.y as nat) + ".png"@,
        (id.x + id.y) % 3 == 0 ==> subdomain(id) == "a"@,
        (id.x + id.y) % 3 == 1 ==> subdomain(id) == "b"@,
        (id.x + id.y) % 3 == 2 ==> subdomain(id) == "c"@,
{
}

/// An event is about the tile it names, and one that brings a picture brings all
/// its pixels.
pub proof fn events_are_about_their_tile(
    id: TileId,
    pixels: Vec<u8>,
    width: u32,
    height: u32,
    error: String,
)
    ensures
        (TileEvent::Ready { id, pixels, width, height }).tile() == id,
        (TileEvent::Error { id, error }).tile() == id,
        (TileEvent::Ready { id, pixels, width, height }).wf() <==> pixels@.len() == 4 * (width
            * height),
        (TileEvent::Error { id, error }).wf(),
{
}

/// A tile is known exactly if it is loaded or in flight, and the two exclude
/// each other.
pub proof fn tiles_are_loaded_or_in_flight<T>(cache: TileCache<T>, id: TileId)
    ensures
        cache.is_known(id) <==> cache.tiles@.contains_key(id) || cache.pending@.contains(id),
        cache.wf() ==> !(cache.tiles@.contains_key(id) && cache.pending@.contains(id)),
        (forall|i: TileId| !(#[trigger] cache.tiles@.contains_key(i) && cache.pending@.contains(i)))
            ==> cache.wf(),
{
}

/// After a queue of events, a tile is in flight exactly if it was and no event
/// was about it. It is loaded exactly if it was or an event brought it. Its
/// texture is what was made, under its name, of the last picture that came, or
/// else the one it had.
pub proof fn queue_is_taken_in_order<T, F: Fn(&str, &Vec<u8>, u32, u32) -> T>(
    before: TileCache<T>,
    after: TileCache<T>,
    events: Seq<TileEvent>,
    upload: F,
    id: TileId,
)
    requires
        after.is_flushed(before, events, upload),
    ensures
        after.pending@.contains(id) <==> before.pending@.contains(id) && forall|i: int|
            0 <= i < events.len() ==> (#[trigger] events[i]).tile() != id,
        after.tiles@.contains_key(id) <==> before.tiles@.contains_key(id) || exists|i: int|
            0 <= i < events.len() && (#[trigger] events[i]) is Ready && events[i].tile() == id,
        (forall|i: int|
            0 <= i < events.len() ==> !((#[trigger] events[i]) is Ready && events[i].tile() == id))
            && before.tiles@.contains_key(id) ==> after.tiles@[id] == before.tiles@[id],
        forall|i: int|
            0 <= i < events.len() && (#[trigger] events[i]) is Ready && events[i].tile() == id && (
            forall|j: int|
                i < j < events.len() ==> !((#[trigger] events[j]) is Ready && events[j].tile()
                    == id)) ==> exists|label: &str|
                {
                    &&& label@ == "osm_"@ + decimal(id.z as nat) + "_"@ + decimal(id.x as nat)
                        + "_"@ + decimal(id.y as nat)
                    &&& #[trigger] upload.ensures(
                        (label, &events[i]->pixels, events[i]->width, events[i]->height),
                        after.tiles@[id],
                    )
                },
        before.wf() ==> after.wf(),
{
    lemma_last_ready(events, id);
    if let Some(k) = last_ready(events, id) {
        assert(events[k] is Ready && events[k].tile() == id);
        assert(after.tiles@.contains_key(id));
        assert(is_uploaded(upload, events[k], after.tiles@[id]));
        assert forall|i: int|
            0 <= i < events.len() && (#[trigger] events[i]) is Ready && events[i].tile() == id && (
            forall|j: int|
                i < j < events.len() ==> !((#[trigger] events[j]) is Ready && events[j].tile()
                    == id)) implies i == k by {
            if i < k {
                assert(events[k] is Ready);
            }
        }
    }
}

} // verus!
