//! Map tiles by their place in the tile pyramid, and collections keyed by them.

use std::collections::{HashMap, HashSet};
use vstd::arithmetic::div_mod::{
    lemma_div_pos_is_pos, lemma_fundamental_div_mod, lemma_multiply_divide_lt,
};
use vstd::arithmetic::mul::lemma_mul_is_commutative;
use vstd::prelude::*;
#[allow(unused_imports)]
use vstd::std_specs::hash::spec_keys_iter;
#[allow(unused_imports)]
use vstd::std_specs::iter::IteratorSpec;

verus! {

/// A tile of the slippy map: column `x` and row `y` at zoom `z`.
#[derive(Hash, Eq, PartialEq, Clone, Copy, Debug, Structural)]
pub struct TileId {
    pub z: u8,
    pub x: u32,
    pub y: u32,
}

/// One number per tile.
pub open spec fn tile_key(id: TileId) -> int {
    id.z * 0x1_0000_0000_0000_0000 + id.x * 0x1_0000_0000 + id.y
}

/// The tile with a given number.
pub open spec fn key_tile(k: int) -> TileId {
    TileId {
        z: (k / 0x1_0000_0000_0000_0000) as u8,
        x: ((k / 0x1_0000_0000) % 0x1_0000_0000) as u32,
        y: (k % 0x1_0000_0000) as u32,
    }
}

/// The numbers that tiles have.
pub open spec fn is_tile_key(k: int) -> bool {
    0 <= k < 0x100_0000_0000_0000_0000
}

proof fn lemma_keys(id: TileId, k: int)
    ensures
        is_tile_key(tile_key(id)),
        key_tile(tile_key(id)) == id,
        is_tile_key(k) ==> tile_key(key_tile(k)) == k,
{
}

fn pack(id: &TileId) -> (k: u128)
    ensures
        k == tile_key(*id),
{
    (id.z as u128) * 0x1_0000_0000_0000_0000 + (id.x as u128) * 0x1_0000_0000 + (id.y as u128)
}

fn unpack(k: u128) -> (id: TileId)
    requires
        is_tile_key(k as int),
    ensures
        id == key_tile(k as int),
{
    TileId {
        z: (k / 0x1_0000_0000_0000_0000) as u8,
        x: ((k / 0x1_0000_0000) % 0x1_0000_0000) as u32,
        y: (k % 0x1_0000_0000) as u32,
    }
}

/// Counting through a grid row by row, `k` is in row `k / width` and in column
/// `k % width`.
pub proof fn lemma_grid_index(k: int, height: int, width: int)
    requires
        0 <= k < height * width,
        0 <= width,
    ensures
        0 <= k / width < height,
        0 <= k % width < width,
        k == (k / width) * width + k % width,
{
    assert(width > 0) by (nonlinear_arith)
        requires
            0 <= k < height * width,
            width >= 0,
    ;
    lemma_fundamental_div_mod(k, width);
    lemma_mul_is_commutative(width, k / width);
    lemma_mul_is_commutative(width, height);
    lemma_multiply_divide_lt(k, width, height);
    lemma_div_pos_is_pos(k, width);
}

/// A map from tiles to values.
pub struct TileMap<T> {
    map: HashMap<u128, T>,
}

impl<T> View for TileMap<T> {
    type V = Map<TileId, T>;

    closed spec fn view(&self) -> Map<TileId, T> {
        Map::new(
            |id: TileId| self.map@.contains_key(tile_key(id) as u128),
            |id: TileId| self.map@[tile_key(id) as u128],
        )
    }
}

impl<T> TileMap<T> {
    #[verifier::type_invariant]
    spec fn inv(self) -> bool {
        forall|k: u128| #[trigger] self.map@.contains_key(k) ==> is_tile_key(k as int)
    }

    pub fn new() -> (r: TileMap<T>)
        ensures
            r@ == Map::<TileId, T>::empty(),
    {
        let r = TileMap { map: HashMap::new() };
        assert(r@ =~= Map::<TileId, T>::empty());
        r
    }

    pub fn contains(&self, id: &TileId) -> (r: bool)
        ensures
            r == self@.contains_key(*id),
    {
        self.map.contains_key(&pack(id))
    }

    pub fn get(&self, id: &TileId) -> (r: Option<&T>)
        ensures
            r == if self@.contains_key(*id) {
                Some(&self@[*id])
            } else {
                None
            },
    {
        self.map.get(&pack(id))
    }

    pub fn insert(&mut self, id: TileId, value: T)
        ensures
            final(self)@ == old(self)@.insert(id, value),
    {
        let k = pack(&id);
        proof {
            use_type_invariant(&*self);
            lemma_keys(id, 0);
        }
        let mut map: HashMap<u128, T> = HashMap::new();
        std::mem::swap(&mut map, &mut self.map);
        map.insert(k, value);
        self.map = map;
        proof {
            assert forall|j: TileId| #[trigger] tile_key(j) == tile_key(id) implies j == id by {
                lemma_keys(j, 0);
            }
            assert(self@ =~= old(self)@.insert(id, value));
        }
    }

    pub fn remove(&mut self, id: &TileId)
        ensures
            final(self)@ == old(self)@.remove(*id),
    {
        let k = pack(id);
        proof {
            use_type_invariant(&*self);
            lemma_keys(*id, 0);
        }
        let mut map: HashMap<u128, T> = HashMap::new();
        std::mem::swap(&mut map, &mut self.map);
        map.remove(&k);
        self.map = map;
        proof {
            assert forall|j: TileId| #[trigger] tile_key(j) == tile_key(*id) implies j == *id by {
                lemma_keys(j, 0);
            }
            assert(self@ =~= old(self)@.remove(*id));
        }
    }

    pub fn clear(&mut self)
        ensures
            final(self)@ == Map::<TileId, T>::empty(),
    {
        self.map = HashMap::new();
        assert(self@ =~= Map::<TileId, T>::empty());
    }

    /// The tiles in the map, each once, in no particular order.
    pub fn ids(&self) -> (r: Vec<TileId>)
        ensures
            r@.no_duplicates(),
            r@.to_set() == self@.dom(),
    {
        proof {
            use_type_invariant(self);
        }
        let ghost keys: Seq<u128> = IteratorSpec::remaining(&spec_keys_iter(&self.map)).unref();
        let mut r: Vec<TileId> = Vec::new();
        for k in it: self.map.keys()
            invariant
                self.inv(),
                keys == it.seq().unref(),
                keys.to_set() == self.map@.dom(),
                r@.len() == it.index(),
                forall|i: int| 0 <= i < r@.len() ==> #[trigger] r@[i] == key_tile(keys[i] as int),
        {
            assert(self.map@.contains_key(*k)) by {
                assert(keys[it.index()] == *k);
                assert(keys.to_set().contains(*k));
            }
            r.push(unpack(*k));
        }
        proof {
            assert(r@.len() == keys.len());
            assert forall|i: int, j: int| 0 <= i < j < r@.len() implies r@[i] != r@[j] by {
                assert(keys.to_set().contains(keys[i]) && keys.to_set().contains(keys[j]));
                lemma_keys(r@[i], keys[i] as int);
                lemma_keys(r@[j], keys[j] as int);
                assert(keys[i] != keys[j]);
            }
            assert forall|id: TileId| r@.to_set().contains(id) == self@.dom().contains(id) by {
                if r@.to_set().contains(id) {
                    let i = choose|i: int| 0 <= i < r@.len() && r@[i] == id;
                    assert(keys.to_set().contains(keys[i]));
                    lemma_keys(id, keys[i] as int);
                }
                if self@.dom().contains(id) {
                    lemma_keys(id, 0);
                    let k = tile_key(id) as u128;
                    assert(keys.to_set().contains(k));
                    let i = choose|i: int| 0 <= i < keys.len() && keys[i] == k;
                    assert(r@[i] == id);
                }
            }
            assert(r@.to_set() =~= self@.dom());
        }
        r
    }
}

/// A set of tiles.
pub struct TileSet {
    set: HashSet<u128>,
}

impl View for TileSet {
    type V = Set<TileId>;

    closed spec fn view(&self) -> Set<TileId> {
        Set::new(|id: TileId| self.set@.contains(tile_key(id) as u128))
    }
}

impl TileSet {
    pub fn new() -> (r: TileSet)
        ensures
            r@ == Set::<TileId>::empty(),
    {
        let r = TileSet { set: HashSet::new() };
        assert(r@ =~= Set::<TileId>::empty());
        r
    }

    pub fn contains(&self, id: &TileId) -> (r: bool)
        ensures
            r == self@.contains(*id),
    {
        self.set.contains(&pack(id))
    }

    pub fn insert(&mut self, id: TileId)
        ensures
            final(self)@ == old(self)@.insert(id),
    {
        let k = pack(&id);
        self.set.insert(k);
        proof {
            assert forall|j: TileId| #[trigger] tile_key(j) == tile_key(id) implies j == id by {
                lemma_keys(j, 0);
                lemma_keys(id, 0);
            }
            assert(self@ =~= old(self)@.insert(id));
        }
    }

    pub fn remove(&mut self, id: &TileId)
        ensures
            final(self)@ == old(self)@.remove(*id),
    {
        let k = pack(id);
        self.set.remove(&k);
        proof {
            assert forall|j: TileId| #[trigger] tile_key(j) == tile_key(*id) implies j == *id by {
                lemma_keys(j, 0);
                lemma_keys(*id, 0);
            }
            assert(self@ =~= old(self)@.remove(*id));
        }
    }
}

} // verus!
