use automancy_core::id::{Id, IdRaw};
use automancy_core::item::ItemRaw;
use automancy_core::registry::{DanglingRef, RefKind};
use automancy_core::resource::{DuplicatePolicy, ResourceManager};
use automancy_core::tile::{TileIds, TileRaw, TileType, TileTypeRaw};

fn tile(kind: TileTypeRaw, ns: &str, name: &str) -> TileRaw {
    TileRaw {
        tile_type: kind,
        id: IdRaw::new(ns, name),
        function: None,
        models: vec![],
        targeted: TileRaw::targeted_default(),
    }
}

fn conveyor() -> TileRaw {
    tile(TileTypeRaw::Transfer(IdRaw::new("pack", "storage_cell")), "pack", "conveyor")
}

fn storage_cell() -> TileRaw {
    tile(
        TileTypeRaw::Storage(ItemRaw { id: IdRaw::new("pack", "ore"), amount: 64 }),
        "pack",
        "storage_cell",
    )
}

#[test]
fn new_manager_has_builtins_and_no_content() {
    let rm = ResourceManager::new();
    assert_eq!(rm.interner.len(), 4);
    assert_eq!(rm.registry.none(), Id(0));
    assert_eq!(rm.registry.any(), Id(1));
    assert_eq!(rm.registry.tile_ids(), TileIds { machine: Id(2), inventory_linker: Id(3) });
    let any = rm.interner.resolve(Id(1));
    assert_eq!((any.namespace.as_str(), any.name.as_str()), ("automancy", "#any"));
    for i in 0..10 {
        assert!(rm.registry.get_tile(Id(i)).is_none());
        assert!(rm.registry.get_script(Id(i)).is_none());
        assert!(rm.registry.get_tag(Id(i)).is_none());
        assert!(rm.registry.get_item(Id(i)).is_none());
    }
}

#[test]
fn tile_ids_new_interns_builtin_tiles() {
    let mut interner = automancy_core::id::Interner::new();
    let ids = TileIds::new(&mut interner);
    assert_eq!(ids.machine, Id(0));
    assert_eq!(ids.inventory_linker, Id(1));
    assert_eq!(interner.resolve(Id(1)).name, "inventory_linker");
}

#[test]
fn get_tile_returns_inserted_definition() {
    let mut rm = ResourceManager::new();
    let raw = TileRaw {
        tile_type: TileTypeRaw::Machine(vec![IdRaw::new("pack", "smelt"), IdRaw::new("pack", "grind")]),
        id: IdRaw::new("pack", "furnace"),
        function: Some(IdRaw::new("pack", "furnace_fn")),
        models: vec![IdRaw::new("pack", "furnace_model")],
        targeted: false,
    };
    let id = rm.load_tile(&raw);
    assert_eq!(id, rm.interner.intern("pack", "furnace"));
    let t = rm.registry.get_tile(id).unwrap();
    let smelt = rm.interner.intern("pack", "smelt");
    let grind = rm.interner.intern("pack", "grind");
    assert_eq!(t.tile_type, TileType::Machine(vec![smelt, grind]));
    assert_eq!(t.function, Some(rm.interner.intern("pack", "furnace_fn")));
    assert_eq!(t.models, vec![rm.interner.intern("pack", "furnace_model")]);
    assert!(!t.targeted);
    assert!(rm.registry.get_tile(smelt).is_none());
    assert_eq!(rm.interner.len(), 4 + 5);
}

#[test]
fn never_inserted_is_not_found() {
    let mut rm = ResourceManager::new();
    rm.load_tile(&tile(TileTypeRaw::Void, "pack", "hole"));
    let other = rm.interner.intern("pack", "missing");
    assert!(rm.registry.get_tile(other).is_none());
    assert!(rm.registry.get_tile(rm.registry.none()).is_none());
}

fn assert_conveyor_and_storage(rm: &mut ResourceManager) {
    let conveyor = rm.interner.intern("pack", "conveyor");
    let cell = rm.interner.intern("pack", "storage_cell");
    let ore = rm.interner.intern("pack", "ore");
    let t = rm.registry.get_tile(conveyor).unwrap();
    assert_eq!(t.tile_type, TileType::Transfer(cell));
    let s = rm.registry.get_tile(cell).unwrap();
    match s.tile_type {
        TileType::Storage(stack) => {
            assert_eq!(stack.amount, 64);
            assert_eq!(stack.id, ore);
        }
        other => panic!("unexpected kind {:?}", other),
    }
}

#[test]
fn transfer_target_resolves_conveyor_first() {
    let mut rm = ResourceManager::new();
    rm.load_tile(&conveyor());
    rm.load_tile(&storage_cell());
    assert_conveyor_and_storage(&mut rm);
}

#[test]
fn transfer_target_resolves_storage_first() {
    let mut rm = ResourceManager::new();
    rm.load_tile(&storage_cell());
    rm.load_tile(&conveyor());
    assert_conveyor_and_storage(&mut rm);
}

#[test]
fn duplicate_definition_last_loaded_wins() {
    let mut rm = ResourceManager::new();
    let a = rm.load_tile(&tile(TileTypeRaw::Void, "pack", "wall"));
    let b = rm.load_tile(&tile(TileTypeRaw::Model, "pack", "wall"));
    assert_eq!(a, b);
    assert_eq!(rm.registry.get_tile(a).unwrap().tile_type, TileType::Model);

    let mut rm2 = ResourceManager::new();
    rm2.load_tile(&tile(TileTypeRaw::Model, "pack", "wall"));
    let c = rm2.load_tile(&tile(TileTypeRaw::Void, "pack", "wall"));
    assert_eq!(rm2.registry.get_tile(c).unwrap().tile_type, TileType::Void);
}

#[test]
fn targeted_defaults_to_true() {
    assert!(TileRaw::targeted_default());
}

#[test]
fn reject_policy_keeps_first_definition() {
    let mut rm = ResourceManager::new();
    let a = rm.load_tile_with(&tile(TileTypeRaw::Void, "pack", "wall"), DuplicatePolicy::Reject);
    assert!(a.is_ok());
    let b = rm.load_tile_with(&tile(TileTypeRaw::Model, "pack", "wall"), DuplicatePolicy::Reject);
    assert_eq!(b, Err(a.unwrap()));
    assert_eq!(rm.registry.get_tile(a.unwrap()).unwrap().tile_type, TileType::Void);
    let c = rm.load_tile_with(&tile(TileTypeRaw::Model, "pack", "wall"), DuplicatePolicy::Overwrite);
    assert_eq!(c, a);
    assert_eq!(rm.registry.get_tile(a.unwrap()).unwrap().tile_type, TileType::Model);
    assert!(rm.registry.has_tile(a.unwrap()));
}

#[test]
fn dangling_references_are_reported_in_order() {
    let mut rm = ResourceManager::new();
    let belt = rm.load_tile(&tile(TileTypeRaw::Transfer(IdRaw::new("pack", "nowhere")), "pack", "belt"));
    let machine = rm.load_tile(&tile(
        TileTypeRaw::Machine(vec![IdRaw::new("pack", "s1"), IdRaw::new("pack", "s2")]),
        "pack",
        "machine",
    ));
    let chest = rm.load_tile(&tile(
        TileTypeRaw::Storage(ItemRaw { id: IdRaw::new("pack", "ore"), amount: 3 }),
        "pack",
        "chest",
    ));
    let ok = rm.load_tile(&tile(TileTypeRaw::Transfer(IdRaw::new("pack", "chest")), "pack", "ok"));
    let nowhere = rm.interner.intern("pack", "nowhere");
    let s1 = rm.interner.intern("pack", "s1");
    let s2 = rm.interner.intern("pack", "s2");
    let ore = rm.interner.intern("pack", "ore");
    let found = rm.registry.dangling_references(&vec![belt, machine, chest, ok, nowhere]);
    assert_eq!(
        found,
        vec![
            DanglingRef { tile: belt, target: nowhere, kind: RefKind::Tile },
            DanglingRef { tile: machine, target: s1, kind: RefKind::Script },
            DanglingRef { tile: machine, target: s2, kind: RefKind::Script },
            DanglingRef { tile: chest, target: ore, kind: RefKind::Item },
        ]
    );
    assert!(rm.registry.dangling_references(&vec![ok]).is_empty());
}
