use vstd::prelude::*;

use std::collections::HashMap;

use crate::id::Id;
use crate::tile::{Tile, TileIds, TileType, TileTypeView, TileView};

verus! {

broadcast use vstd::std_specs::hash::group_hash_axioms;

/// A script definition.
#[derive(Debug, Clone, Copy, PartialEq, Eq, Structural, Hash)]
pub struct Script {
    pub id: Id,
}

/// A tag definition.
#[derive(Debug, Clone, Copy, PartialEq, Eq, Structural, Hash)]
pub struct Tag {
    pub id: Id,
}

/// An item definition.
#[derive(Debug, Clone, Copy, PartialEq, Eq, Structural, Hash)]
pub struct ItemDef {
    pub id: Id,
}

/// The definition stored under `id` in `m`, if any.
pub open spec fn lookup<V>(m: Map<usize, V>, id: Id) -> Option<V> {
    if m.contains_key(id.0) {
        Some(m[id.0])
    } else {
        None
    }
}

/// The mathematical form of an optional tile.
pub open spec fn tile_view_of(o: Option<Tile>) -> Option<TileView> {
    match o {
        Some(t) => Some(t@),
        None => None,
    }
}

/// A lookup finds nothing in an empty table; after a definition is stored
/// under an identifier, a lookup of that identifier finds exactly it, and a
/// lookup of any other identifier finds what it found before.
pub proof fn lemma_tile_lookup(m: Map<usize, TileView>, id: Id, tile: TileView, other: Id)
    ensures
        lookup(Map::<usize, TileView>::empty(), other) == None::<TileView>,
        lookup(m.insert(id.0, tile), id) == Some(tile),
        other != id ==> lookup(m.insert(id.0, tile), other) == lookup(m, other),
{
}

/// The table that a reference must name an entry of.
#[derive(Debug, Clone, Copy, PartialEq, Eq, Structural, Hash)]
pub enum RefKind {
    Script,
    Tile,
    Item,
}

/// A reference of a tile to an identifier with no definition of the
/// expected kind.
#[derive(Debug, Clone, Copy, PartialEq, Eq, Structural, Hash)]
pub struct DanglingRef {
    pub tile: Id,
    pub target: Id,
    pub kind: RefKind,
}

/// The scripts of `ids`, in order, that `scripts` does not define, as
/// references from `tile`.
pub open spec fn missing_scripts(scripts: Map<usize, Script>, tile: Id, ids: Seq<Id>) -> Seq<
    DanglingRef,
>
    decreases ids.len(),
{
    if ids.len() == 0 {
        Seq::empty()
    } else {
        let rest = missing_scripts(scripts, tile, ids.drop_last());
        if scripts.contains_key(ids.last().0) {
            rest
        } else {
            rest.push(DanglingRef { tile, target: ids.last(), kind: RefKind::Script })
        }
    }
}

/// A copy of a list of identifiers.
fn copy_ids(v: &Vec<Id>) -> (r: Vec<Id>)
    ensures
        r@ == v@,
{
    let r = v.clone();
    assert(r@ =~= v@);
    r
}

/// A copy of a tile definition.
fn copy_tile(t: &Tile) -> (r: Tile)
    ensures
        r@ == t@,
{
    let tile_type = match &t.tile_type {
        TileType::Empty => TileType::Empty,
        TileType::Void => TileType::Void,
        TileType::Model => TileType::Model,
        TileType::Machine(scripts) => TileType::Machine(copy_ids(scripts)),
        TileType::Transfer(id) => TileType::Transfer(*id),
        TileType::Storage(stack) => TileType::Storage(*stack),
    };
    Tile { tile_type, function: t.function, models: copy_ids(&t.models), targeted: t.targeted }
}

/// The tables of definitions, keyed by resolved identifier, and the
/// identifiers that the engine itself refers to.
pub struct Registry {
    tiles: HashMap<usize, Tile>,
    scripts: HashMap<usize, Script>,
    tags: HashMap<usize, Tag>,
    items: HashMap<usize, ItemDef>,
    none: Id,
    any: Id,
    tile_ids: TileIds,
}

impl Registry {
    /// The tile definitions by identifier.
    pub closed spec fn tile_map(&self) -> Map<usize, TileView> {
        self.tiles@.map_values(|t: Tile| t@)
    }

    /// The script definitions by identifier.
    pub closed spec fn script_map(&self) -> Map<usize, Script> {
        self.scripts@
    }

    /// The tag definitions by identifier.
    pub closed spec fn tag_map(&self) -> Map<usize, Tag> {
        self.tags@
    }

    /// The item definitions by identifier.
    pub closed spec fn item_map(&self) -> Map<usize, ItemDef> {
        self.items@
    }

    /// The identifier that stands for no resource.
    pub closed spec fn spec_none(&self) -> Id {
        self.none
    }

    /// The identifier that stands for any resource.
    pub closed spec fn spec_any(&self) -> Id {
        self.any
    }

    /// The identifiers of the built-in tiles.
    pub closed spec fn spec_tile_ids(&self) -> TileIds {
        self.tile_ids
    }

    /// The identifier that stands for no resource.
    pub fn none(&self) -> (id: Id)
        ensures
            id == self.spec_none(),
    {
        self.none
    }

    /// The identifier that stands for any resource.
    pub fn any(&self) -> (id: Id)
        ensures
            id == self.spec_any(),
    {
        self.any
    }

    /// The identifiers of the built-in tiles.
    pub fn tile_ids(&self) -> (ids: TileIds)
        ensures
            ids == self.spec_tile_ids(),
    {
        self.tile_ids
    }

    /// A registry with no definitions.
    pub(crate) fn new(none: Id, any: Id, tile_ids: TileIds) -> (r: Registry)
        ensures
            r.tile_map() == Map::<usize, TileView>::empty(),
            r.script_map() == Map::<usize, Script>::empty(),
            r.tag_map() == Map::<usize, Tag>::empty(),
            r.item_map() == Map::<usize, ItemDef>::empty(),
            r.spec_none() == none,
            r.spec_any() == any,
            r.spec_tile_ids() == tile_ids,
    {
        let r = Registry {
            tiles: HashMap::new(),
            scripts: HashMap::new(),
            tags: HashMap::new(),
            items: HashMap::new(),
            none,
            any,
            tile_ids,
        };
        assert(r.tile_map() =~= Map::<usize, TileView>::empty());
        r
    }

    /// Stores `tile` under `id`, replacing what was there.
    pub(crate) fn insert_tile(&mut self, id: Id, tile: Tile)
        ensures
            final(self).tile_map() == old(self).tile_map().insert(id.0, tile@),
            final(self).script_map() == old(self).script_map(),
            final(self).tag_map() == old(self).tag_map(),
            final(self).item_map() == old(self).item_map(),
            final(self).spec_none() == old(self).spec_none(),
            final(self).spec_any() == old(self).spec_any(),
            final(self).spec_tile_ids() == old(self).spec_tile_ids(),
    {
        self.tiles.insert(id.0, tile);
        assert(self.tile_map() =~= old(self).tile_map().insert(id.0, tile@));
    }

    /// Whether a tile definition is stored under `id`.
    pub fn has_tile(&self, id: Id) -> (b: bool)
        ensures
            b == self.tile_map().contains_key(id.0),
    {
        self.tiles.contains_key(&id.0)
    }

    /// The dangling references of the tile stored under `tile`, in order.
    pub open spec fn dangling_of(&self, tile: Id) -> Seq<DanglingRef> {
        if !self.tile_map().contains_key(tile.0) {
            Seq::empty()
        } else {
            match self.tile_map()[tile.0].tile_type {
                TileTypeView::Machine(ids) => missing_scripts(self.script_map(), tile, ids),
                TileTypeView::Transfer(target) => if self.tile_map().contains_key(target.0) {
                    Seq::empty()
                } else {
                    seq![DanglingRef { tile, target, kind: RefKind::Tile }]
                },
                TileTypeView::Storage(stack) => if self.item_map().contains_key(stack.id.0) {
                    Seq::empty()
                } else {
                    seq![DanglingRef { tile, target: stack.id, kind: RefKind::Item }]
                },
                _ => Seq::empty(),
            }
        }
    }

    /// The dangling references of the tiles of `tiles`, tile after tile.
    pub open spec fn dangling_all(&self, tiles: Seq<Id>) -> Seq<DanglingRef>
        decreases tiles.len(),
    {
        if tiles.len() == 0 {
            Seq::empty()
        } else {
            self.dangling_all(tiles.drop_last()) + self.dangling_of(tiles.last())
        }
    }

    /// Appends to `out` the scripts of `ids` that are not defined.
    fn push_missing_scripts(&self, tile: Id, ids: &Vec<Id>, out: &mut Vec<DanglingRef>)
        ensures
            final(out)@ == old(out)@ + missing_scripts(self.script_map(), tile, ids@),
    {
        let mut i: usize = 0;
        let ghost start = out@;
        proof {
            assert(ids@.take(0) =~= Seq::<Id>::empty());
            assert(start + Seq::<DanglingRef>::empty() =~= start);
        }
        while i < ids.len()
            invariant
                0 <= i <= ids.len(),
                out@ == start + missing_scripts(self.script_map(), tile, ids@.take(i as int)),
            decreases ids.len() - i,
        {
            let target = ids[i];
            proof {
                assert(ids@.take(i + 1).drop_last() =~= ids@.take(i as int));
                assert(ids@.take(i + 1).last() == target);
            }
            if !self.scripts.contains_key(&target.0) {
                out.push(DanglingRef { tile, target, kind: RefKind::Script });
                proof {
                    assert(out@ =~= start + missing_scripts(
                        self.script_map(),
                        tile,
                        ids@.take(i + 1),
                    ));
                }
            }
            i += 1;
        }
        proof {
            assert(ids@.take(i as int) =~= ids@);
        }
    }

    /// Every reference of the tiles of `tiles` (scripts of machines, targets
    /// of transfers, items of storages) that names no definition of the
    /// expected kind, tile after tile.
    pub fn dangling_references(&self, tiles: &Vec<Id>) -> (r: Vec<DanglingRef>)
        ensures
            r@ == self.dangling_all(tiles@),
    {
        let mut out: Vec<DanglingRef> = Vec::new();
        let mut i: usize = 0;
        proof {
            assert(tiles@.take(0) =~= Seq::<Id>::empty());
        }
        while i < tiles.len()
            invariant
                0 <= i <= tiles.len(),
                out@ == self.dangling_all(tiles@.take(i as int)),
            decreases tiles.len() - i,
        {
            let tile = tiles[i];
            let ghost before = out@;
            proof {
                assert(tiles@.take(i + 1).drop_last() =~= tiles@.take(i as int));
                assert(tiles@.take(i + 1).last() == tile);
            }
            match self.tiles.get(&tile.0) {
                None => {
                    assert(before + self.dangling_of(tile) =~= before);
                },
                Some(t) => match &t.tile_type {
                    TileType::Machine(ids) => {
                        self.push_missing_scripts(tile, ids, &mut out);
                    },
                    TileType::Transfer(target) => {
                        if !self.tiles.contains_key(&target.0) {
                            out.push(DanglingRef { tile, target: *target, kind: RefKind::Tile });
                        }
                    },
                    TileType::Storage(stack) => {
                        if !self.items.contains_key(&stack.id.0) {
                            out.push(
                                DanglingRef { tile, target: stack.id, kind: RefKind::Item },
                            );
                        }
                    },
                    _ => {},
                },
            }
            proof {
                assert(out@ =~= before + self.dangling_of(tile));
            }
            i += 1;
        }
        proof {
            assert(tiles@.take(i as int) =~= tiles@);
        }
        out
    }

    /// The tile definition stored under `id`, if any.
    pub fn get_tile(&self, id: Id) -> (r: Option<Tile>)
        ensures
            tile_view_of(r) == lookup(self.tile_map(), id),
    {
        match self.tiles.get(&id.0) {
            Some(t) => Some(copy_tile(t)),
            None => None,
        }
    }

    /// The script definition stored under `id`, if any.
    pub fn get_script(&self, id: Id) -> (r: Option<Script>)
        ensures
            r == lookup(self.script_map(), id),
    {
        match self.scripts.get(&id.0) {
            Some(s) => Some(*s),
            None => None,
        }
    }

    /// The tag definition stored under `id`, if any.
    pub fn get_tag(&self, id: Id) -> (r: Option<Tag>)
        ensures
            r == lookup(self.tag_map(), id),
    {
        match self.tags.get(&id.0) {
            Some(t) => Some(*t),
            None => None,
        }
    }

    /// The item definition stored under `id`, if any.
    pub fn get_item(&self, id: Id) -> (r: Option<ItemDef>)
        ensures
            r == lookup(self.item_map(), id),
    {
        match self.items.get(&id.0) {
            Some(i) => Some(*i),
            None => None,
        }
    }
}

} // verus!
