use vstd::prelude::*;

use crate::id::{
    all_resolve, id_static, intern_all, intern_step, lemma_all_resolve_extends,
    lemma_intern_all_concat, lemma_intern_all_extends, lemma_resolve_round_trip, names_of,
    resolves, to_ids, Id, IdRaw, Interner, Name,
};
use crate::item::{Item, ItemRaw};

verus! {

/// The kind of a tile as written in data files.
#[derive(Debug, Clone, PartialEq)]
pub enum TileTypeRaw {
    Empty,
    Void,
    Model,
    Machine(Vec<IdRaw>),
    Transfer(IdRaw),
    Storage(ItemRaw),
}

/// The kind of a tile, with its references resolved.
#[derive(Debug, Clone, PartialEq)]
pub enum TileType {
    Empty,
    Void,
    Model,
    Machine(Vec<Id>),
    Transfer(Id),
    Storage(Item),
}

/// A tile definition as written in data files.
#[derive(Debug, Clone, PartialEq)]
pub struct TileRaw {
    pub tile_type: TileTypeRaw,
    pub id: IdRaw,
    pub function: Option<IdRaw>,
    pub models: Vec<IdRaw>,
    pub targeted: bool,
}

/// A tile definition with every identifier resolved.
#[derive(Debug, Clone, PartialEq)]
pub struct Tile {
    pub tile_type: TileType,
    pub function: Option<Id>,
    pub models: Vec<Id>,
    pub targeted: bool,
}

/// The mathematical form of a tile kind.
pub enum TileTypeView {
    Empty,
    Void,
    Model,
    Machine(Seq<Id>),
    Transfer(Id),
    Storage(Item),
}

/// The mathematical form of a tile definition.
pub struct TileView {
    pub tile_type: TileTypeView,
    pub function: Option<Id>,
    pub models: Seq<Id>,
    pub targeted: bool,
}

impl View for TileType {
    type V = TileTypeView;

    open spec fn view(&self) -> TileTypeView {
        match self {
            TileType::Empty => TileTypeView::Empty,
            TileType::Void => TileTypeView::Void,
            TileType::Model => TileTypeView::Model,
            TileType::Machine(ids) => TileTypeView::Machine(ids@),
            TileType::Transfer(id) => TileTypeView::Transfer(*id),
            TileType::Storage(stack) => TileTypeView::Storage(*stack),
        }
    }
}

impl View for Tile {
    type V = TileView;

    open spec fn view(&self) -> TileView {
        TileView {
            tile_type: self.tile_type@,
            function: self.function,
            models: self.models@,
            targeted: self.targeted,
        }
    }
}

/// The identifiers that a tile kind refers to, in order.
pub open spec fn type_names(tt: TileTypeRaw) -> Seq<Name> {
    match tt {
        TileTypeRaw::Machine(scripts) => names_of(scripts@),
        TileTypeRaw::Transfer(target) => seq![target@],
        TileTypeRaw::Storage(stack) => seq![stack.id@],
        _ => Seq::empty(),
    }
}

/// The name held by an optional raw identifier, if any.
pub open spec fn option_names(o: Option<IdRaw>) -> Seq<Name> {
    match o {
        Some(r) => seq![r@],
        None => Seq::empty(),
    }
}

/// Every identifier of a tile record in the order it is resolved: its own,
/// those of its kind, its function, then its models.
pub open spec fn tile_names(raw: TileRaw) -> Seq<Name> {
    seq![raw.id@] + type_names(raw.tile_type) + option_names(raw.function) + names_of(raw.models@)
}

/// `tt` is the kind `raw` with each identifier resolved on table `t`.
pub open spec fn type_resolved(t: Seq<Name>, raw: TileTypeRaw, tt: TileTypeView) -> bool {
    match (raw, tt) {
        (TileTypeRaw::Empty, TileTypeView::Empty) => true,
        (TileTypeRaw::Void, TileTypeView::Void) => true,
        (TileTypeRaw::Model, TileTypeView::Model) => true,
        (TileTypeRaw::Machine(rs), TileTypeView::Machine(ids)) => all_resolve(t, ids, rs@),
        (TileTypeRaw::Transfer(r), TileTypeView::Transfer(id)) => resolves(t, id, r@),
        (TileTypeRaw::Storage(rs), TileTypeView::Storage(st)) => resolves(t, st.id, rs.id@)
            && st.amount == rs.amount,
        _ => false,
    }
}

/// `o` is the optional identifier `raw` resolved on table `t`.
pub open spec fn option_resolved(t: Seq<Name>, raw: Option<IdRaw>, o: Option<Id>) -> bool {
    match (raw, o) {
        (Some(r), Some(id)) => resolves(t, id, r@),
        (None, None) => true,
        _ => false,
    }
}

/// `tile` is the record `raw` with each identifier resolved on table `t`.
pub open spec fn tile_resolved(t: Seq<Name>, raw: TileRaw, tile: TileView) -> bool {
    &&& type_resolved(t, raw.tile_type, tile.tile_type)
    &&& option_resolved(t, raw.function, tile.function)
    &&& all_resolve(t, tile.models, raw.models@)
    &&& tile.targeted == raw.targeted
}

/// A resolved kind stays resolved on every later state of the table.
pub proof fn lemma_type_resolved_extends(
    t: Seq<Name>,
    u: Seq<Name>,
    raw: TileTypeRaw,
    tt: TileTypeView,
)
    requires
        type_resolved(t, raw, tt),
        t.is_prefix_of(u),
    ensures
        type_resolved(u, raw, tt),
{
    match (raw, tt) {
        (TileTypeRaw::Machine(rs), TileTypeView::Machine(ids)) => {
            lemma_all_resolve_extends(t, u, ids, rs@);
        },
        (TileTypeRaw::Transfer(r), TileTypeView::Transfer(id)) => {
            lemma_resolve_round_trip(t, u, id, r@);
        },
        (TileTypeRaw::Storage(rs), TileTypeView::Storage(st)) => {
            lemma_resolve_round_trip(t, u, st.id, rs.id@);
        },
        _ => {},
    }
}

impl TileTypeRaw {
    /// Resolves every identifier that the kind refers to.
    pub fn to_tile_type(&self, interner: &mut Interner) -> (tt: TileType)
        ensures
            final(interner)@ == intern_all(old(interner)@, type_names(*self)),
            type_resolved(final(interner)@, *self, tt@),
    {
        match self {
            TileTypeRaw::Empty => TileType::Empty,
            TileTypeRaw::Void => TileType::Void,
            TileTypeRaw::Model => TileType::Model,
            TileTypeRaw::Machine(scripts) => TileType::Machine(to_ids(scripts, interner)),
            TileTypeRaw::Transfer(target) => {
                let id = target.to_id(interner);
                proof {
                    reveal_with_fuel(intern_all, 2);
                    assert(seq![target@].drop_last() =~= Seq::<Name>::empty());
                }
                TileType::Transfer(id)
            },
            TileTypeRaw::Storage(stack) => {
                let item = stack.to_item(interner);
                proof {
                    reveal_with_fuel(intern_all, 2);
                    assert(seq![stack.id@].drop_last() =~= Seq::<Name>::empty());
                }
                TileType::Storage(item)
            },
        }
    }
}

/// Resolves an optional identifier.
fn option_to_id(o: &Option<IdRaw>, interner: &mut Interner) -> (r: Option<Id>)
    ensures
        final(interner)@ == intern_all(old(interner)@, option_names(*o)),
        option_resolved(final(interner)@, *o, r),
{
    match o {
        Some(raw) => {
            let id = raw.to_id(interner);
            proof {
                reveal_with_fuel(intern_all, 2);
                assert(seq![raw@].drop_last() =~= Seq::<Name>::empty());
            }
            Some(id)
        },
        None => None,
    }
}

impl TileRaw {
    /// The value of `targeted` when a record leaves it out.
    pub fn targeted_default() -> (b: bool)
        ensures
            b,
    {
        true
    }

    /// Resolves the record's own identifier, then those of its kind, its
    /// function and its models, in that order.
    pub fn to_tile(&self, interner: &mut Interner) -> (r: (Id, Tile))
        ensures
            final(interner)@ == intern_all(old(interner)@, tile_names(*self)),
            resolves(final(interner)@, r.0, self.id@),
            tile_resolved(final(interner)@, *self, r.1@),
    {
        let ghost t0 = interner@;
        let id = self.id.to_id(interner);
        let ghost t1 = interner@;
        let tile_type = self.tile_type.to_tile_type(interner);
        let ghost t2 = interner@;
        let function = option_to_id(&self.function, interner);
        let ghost t3 = interner@;
        let models = to_ids(&self.models, interner);
        let ghost t4 = interner@;
        proof {
            let a = seq![self.id@];
            let b = type_names(self.tile_type);
            let c = option_names(self.function);
            let d = names_of(self.models@);
            reveal_with_fuel(intern_all, 2);
            assert(a.drop_last() =~= Seq::<Name>::empty());
            assert(t1 == intern_all(t0, a));
            lemma_intern_all_concat(t0, a, b);
            lemma_intern_all_concat(t0, a + b, c);
            lemma_intern_all_concat(t0, a + b + c, d);
            lemma_intern_all_extends(t1, b);
            lemma_intern_all_extends(t2, c);
            lemma_intern_all_extends(t3, d);
            assert(t1.is_prefix_of(t4));
            assert(t2.is_prefix_of(t4));
            lemma_resolve_round_trip(t1, t4, id, self.id@);
            lemma_type_resolved_extends(t2, t4, self.tile_type, tile_type@);
            if self.function.is_some() {
                lemma_resolve_round_trip(t3, t4, function.unwrap(), self.function.unwrap()@);
            }
        }
        (id, Tile { tile_type, function, models, targeted: self.targeted })
    }
}

/// Identifiers of the built-in tiles.
#[derive(Debug, Clone, Copy, PartialEq, Eq, Structural, Hash)]
pub struct TileIds {
    pub machine: Id,
    pub inventory_linker: Id,
}

impl TileIds {
    /// Interns the built-in tile names `automancy:machine` and
    /// `automancy:inventory_linker`, in that order.
    pub fn new(interner: &mut Interner) -> (ids: TileIds)
        ensures
            final(interner)@ == intern_step(
                intern_step(old(interner)@, ("automancy"@, "machine"@)),
                ("automancy"@, "inventory_linker"@),
            ),
            resolves(final(interner)@, ids.machine, ("automancy"@, "machine"@)),
            resolves(final(interner)@, ids.inventory_linker, ("automancy"@, "inventory_linker"@)),
    {
        let machine = id_static("automancy", "machine").to_id(interner);
        let ghost t1 = interner@;
        let inventory_linker = id_static("automancy", "inventory_linker").to_id(interner);
        proof {
            lemma_intern_all_extends(t1, seq![("automancy"@, "inventory_linker"@)]);
            reveal_with_fuel(intern_all, 2);
            assert(seq![("automancy"@, "inventory_linker"@)].drop_last() =~= Seq::<Name>::empty());
            lemma_resolve_round_trip(t1, interner@, machine, ("automancy"@, "machine"@));
        }
        TileIds { machine, inventory_linker }
    }
}

} // verus!
