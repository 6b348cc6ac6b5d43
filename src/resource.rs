use vstd::prelude::*;

use crate::id::{
    id_static, intern_all, lemma_intern_all_concat, lemma_intern_all_extends, resolves, Id, Interner,
    Name,
};
use crate::registry::{ItemDef, Registry, Script, Tag};
use crate::tile::{tile_names, tile_resolved, TileIds, TileRaw, TileView};
use crate::translate::{
    entries_map, entry_names, lemma_entries_map_extends, resolve_entries, Translate, TranslateRaw,
};

verus! {

broadcast use vstd::std_specs::hash::group_hash_axioms;

/// The names that a new resource manager interns, in order: the "none"
/// sentinel, the "any" wildcard, then the built-in tiles.
/// The display string stored under `id` in `m`, or `fallback` when there is none.
pub open spec fn text_or(m: Map<usize, String>, id: Id, fallback: Seq<char>) -> Seq<char> {
    if m.contains_key(id.0) {
        m[id.0]@
    } else {
        fallback
    }
}

pub open spec fn builtin_names() -> Seq<Name> {
    seq![
        ("automancy"@, "none"@),
        ("automancy"@, "#any"@),
        ("automancy"@, "machine"@),
        ("automancy"@, "inventory_linker"@),
    ]
}

/// What loading does with a definition whose identifier is already defined.
#[derive(Debug, Clone, Copy, PartialEq, Eq, Structural, Hash)]
pub enum DuplicatePolicy {
    /// The later definition replaces the earlier one.
    Overwrite,
    /// The earlier definition stays and the later one is refused.
    Reject,
}

/// The interner, the registry and the display strings of loaded content.
pub struct ResourceManager {
    pub interner: Interner,
    pub ordered_ids: Vec<Id>,
    pub registry: Registry,
    pub translates: Translate,
}

impl ResourceManager {
    /// A manager with the built-in identifiers interned and no content.
    pub fn new() -> (rm: ResourceManager)
        ensures
            rm.interner@ == builtin_names(),
            rm.registry.spec_none() == Id(0),
            rm.registry.spec_any() == Id(1),
            rm.registry.spec_tile_ids() == (TileIds { machine: Id(2), inventory_linker: Id(3) }),
            rm.registry.tile_map() == Map::<usize, TileView>::empty(),
            rm.registry.script_map() == Map::<usize, Script>::empty(),
            rm.registry.tag_map() == Map::<usize, Tag>::empty(),
            rm.registry.item_map() == Map::<usize, ItemDef>::empty(),
            rm.ordered_ids@ == Seq::<Id>::empty(),
            rm.translates.items@ == Map::<usize, String>::empty(),
            rm.translates.tiles@ == Map::<usize, String>::empty(),
            rm.translates.gui@ == Map::<usize, String>::empty(),
    {
        let mut interner = Interner::new();
        let none = id_static("automancy", "none").to_id(&mut interner);
        let any = id_static("automancy", "#any").to_id(&mut interner);
        let tile_ids = TileIds::new(&mut interner);
        proof {
            reveal_strlit("none");
            reveal_strlit("#any");
            reveal_strlit("machine");
            reveal_strlit("inventory_linker");
            let n0 = ("automancy"@, "none"@);
            let n1 = ("automancy"@, "#any"@);
            let n2 = ("automancy"@, "machine"@);
            let n3 = ("automancy"@, "inventory_linker"@);
            assert(n0.1[0] == 'n' && n1.1[0] == '#' && n2.1[0] == 'm' && n3.1[0] == 'i');
            assert(n0 != n1 && n0 != n2 && n0 != n3 && n1 != n2 && n1 != n3 && n2 != n3);
            let e = Seq::<Name>::empty();
            assert(!e.contains(n0));
            assert(e.push(n0) =~= seq![n0]);
            assert(!seq![n0].contains(n1));
            assert(seq![n0].push(n1) =~= seq![n0, n1]);
            assert(!seq![n0, n1].contains(n2));
            assert(seq![n0, n1].push(n2) =~= seq![n0, n1, n2]);
            assert(!seq![n0, n1, n2].contains(n3));
            assert(seq![n0, n1, n2].push(n3) =~= builtin_names());
        }
        let rm = ResourceManager {
            interner,
            ordered_ids: Vec::new(),
            registry: Registry::new(none, any, tile_ids),
            translates: Translate::new(),
        };
        proof {
            assert(rm.ordered_ids@ =~= Seq::<Id>::empty());
        }
        rm
    }

    /// Resolves a tile record and stores it in the registry under its own
    /// identifier, replacing an earlier definition there. Returns that
    /// identifier.
    pub fn load_tile(&mut self, raw: &TileRaw) -> (id: Id)
        ensures
            final(self).interner@ == intern_all(old(self).interner@, tile_names(*raw)),
            resolves(final(self).interner@, id, raw.id@),
            final(self).registry.tile_map().contains_key(id.0),
            tile_resolved(final(self).interner@, *raw, final(self).registry.tile_map()[id.0]),
            final(self).registry.tile_map() == old(self).registry.tile_map().insert(
                id.0,
                final(self).registry.tile_map()[id.0],
            ),
            final(self).registry.script_map() == old(self).registry.script_map(),
            final(self).registry.tag_map() == old(self).registry.tag_map(),
            final(self).registry.item_map() == old(self).registry.item_map(),
            final(self).registry.spec_none() == old(self).registry.spec_none(),
            final(self).registry.spec_any() == old(self).registry.spec_any(),
            final(self).registry.spec_tile_ids() == old(self).registry.spec_tile_ids(),
            final(self).ordered_ids == old(self).ordered_ids,
            final(self).translates == old(self).translates,
    {
        let (id, tile) = raw.to_tile(&mut self.interner);
        self.registry.insert_tile(id, tile);
        id
    }

    /// Loads a tile record as `load_tile` does, unless its identifier is
    /// already defined and `policy` rejects duplicates: then the registry is
    /// left as it was and the identifier comes back as the error.
    pub fn load_tile_with(&mut self, raw: &TileRaw, policy: DuplicatePolicy) -> (r: Result<Id, Id>)
        ensures
            final(self).interner@ == intern_all(old(self).interner@, tile_names(*raw)),
            match r {
                Ok(id) => resolves(final(self).interner@, id, raw.id@)
                    && (policy == DuplicatePolicy::Overwrite
                        || !old(self).registry.tile_map().contains_key(id.0))
                    && final(self).registry.tile_map().contains_key(id.0)
                    && tile_resolved(final(self).interner@, *raw, final(self).registry.tile_map()[id.0])
                    && final(self).registry.tile_map() == old(self).registry.tile_map().insert(
                        id.0,
                        final(self).registry.tile_map()[id.0],
                    ),
                Err(id) => resolves(final(self).interner@, id, raw.id@)
                    && policy == DuplicatePolicy::Reject
                    && old(self).registry.tile_map().contains_key(id.0)
                    && final(self).registry.tile_map() == old(self).registry.tile_map(),
            },
            final(self).registry.script_map() == old(self).registry.script_map(),
            final(self).registry.tag_map() == old(self).registry.tag_map(),
            final(self).registry.item_map() == old(self).registry.item_map(),
            final(self).registry.spec_none() == old(self).registry.spec_none(),
            final(self).registry.spec_any() == old(self).registry.spec_any(),
            final(self).registry.spec_tile_ids() == old(self).registry.spec_tile_ids(),
            final(self).ordered_ids == old(self).ordered_ids,
            final(self).translates == old(self).translates,
    {
        let (id, tile) = raw.to_tile(&mut self.interner);
        if policy == DuplicatePolicy::Reject && self.registry.has_tile(id) {
            return Err(id);
        }
        self.registry.insert_tile(id, tile);
        Ok(id)
    }

    /// Resolves the names of a locale's display strings (items, then tiles,
    /// then GUI elements) and makes them the current display strings.
    pub fn load_translate(&mut self, raw: &TranslateRaw)
        ensures
            final(self).interner@ == intern_all(
                old(self).interner@,
                entry_names(raw.items@) + entry_names(raw.tiles@) + entry_names(raw.gui@),
            ),
            final(self).translates.items@ == entries_map(final(self).interner@, raw.items@),
            final(self).translates.tiles@ == entries_map(final(self).interner@, raw.tiles@),
            final(self).translates.gui@ == entries_map(final(self).interner@, raw.gui@),
            final(self).registry == old(self).registry,
            final(self).ordered_ids == old(self).ordered_ids,
    {
        let ghost t0 = self.interner@;
        let items = resolve_entries(&raw.items, &mut self.interner);
        let ghost t1 = self.interner@;
        let tiles = resolve_entries(&raw.tiles, &mut self.interner);
        let ghost t2 = self.interner@;
        let gui = resolve_entries(&raw.gui, &mut self.interner);
        proof {
            let a = entry_names(raw.items@);
            let b = entry_names(raw.tiles@);
            let c = entry_names(raw.gui@);
            lemma_intern_all_concat(t0, a, b);
            lemma_intern_all_concat(t0, a + b, c);
            lemma_intern_all_extends(t1, b);
            lemma_intern_all_extends(t2, c);
            assert(t1.is_prefix_of(self.interner@));
            lemma_entries_map_extends(t1, self.interner@, raw.items@);
            lemma_entries_map_extends(t2, self.interner@, raw.tiles@);
        }
        self.translates = Translate { items, tiles, gui };
    }

    /// The display name of an item, or `<unnamed>`.
    pub fn item_name(&self, id: &Id) -> (name: &str)
        ensures
            name@ == text_or(self.translates.items@, *id, "<unnamed>"@),
    {
        match self.translates.items.get(&id.0) {
            Some(name) => name.as_str(),
            None => "<unnamed>",
        }
    }

    /// The display name of an optional item, or `<none>` without one.
    pub fn try_item_name(&self, id: &Option<Id>) -> (name: &str)
        ensures
            name@ == match *id {
                Some(i) => text_or(self.translates.items@, i, "<unnamed>"@),
                None => "<none>"@,
            },
    {
        match id {
            Some(id) => self.item_name(id),
            None => "<none>",
        }
    }

    /// The display name of a tile, or `<unnamed>`.
    pub fn tile_name(&self, id: &Id) -> (name: &str)
        ensures
            name@ == text_or(self.translates.tiles@, *id, "<unnamed>"@),
    {
        match self.translates.tiles.get(&id.0) {
            Some(name) => name.as_str(),
            None => "<unnamed>",
        }
    }

    /// The display name of an optional tile, or `<none>` without one.
    pub fn try_tile_name(&self, id: &Option<Id>) -> (name: &str)
        ensures
            name@ == match *id {
                Some(i) => text_or(self.translates.tiles@, i, "<unnamed>"@),
                None => "<none>"@,
            },
    {
        match id {
            Some(id) => self.tile_name(id),
            None => "<none>",
        }
    }
}

} // verus!
