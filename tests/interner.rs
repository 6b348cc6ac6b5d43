use automancy_core::id::{id_static, IdRaw, Interner};
use automancy_core::item::ItemRaw;

#[test]
fn interning_twice_gives_same_id() {
    let mut interner = Interner::new();
    let a = interner.intern("pack", "ore");
    let len = interner.len();
    let b = interner.intern("pack", "ore");
    assert_eq!(a, b);
    assert_eq!(interner.len(), len);
}

#[test]
fn distinct_names_get_distinct_ids() {
    let mut interner = Interner::new();
    let a = interner.intern("pack", "ore");
    let b = interner.intern("pack", "ingot");
    let c = interner.intern("other", "ore");
    assert_ne!(a, b);
    assert_ne!(a, c);
    assert_ne!(b, c);
    assert_eq!(interner.len(), 3);
}

#[test]
fn resolve_round_trip() {
    let mut interner = Interner::new();
    let names = [("a", "x"), ("b", "y"), ("a", "y")];
    let ids: Vec<_> = names.iter().map(|(n, m)| interner.intern(n, m)).collect();
    for (id, (n, m)) in ids.iter().zip(names.iter()) {
        let raw = interner.resolve(*id);
        assert_eq!(raw.namespace, *n);
        assert_eq!(raw.name, *m);
    }
}

#[test]
fn raw_to_id_is_idempotent() {
    let mut interner = Interner::new();
    let raw = IdRaw::new("pack", "wall");
    let a = raw.to_id(&mut interner);
    let b = raw.to_id(&mut interner);
    assert_eq!(a, b);
    assert_eq!(interner.len(), 1);
    assert_eq!(id_static("pack", "wall"), raw);
}

#[test]
fn item_raw_resolves_id_and_keeps_amount() {
    let mut interner = Interner::new();
    interner.intern("pack", "coal");
    let raw = ItemRaw { id: IdRaw::new("pack", "ore"), amount: 64 };
    let item = raw.to_item(&mut interner);
    assert_eq!(item.amount, 64);
    assert_eq!(item.id, interner.intern("pack", "ore"));
    assert_eq!(item.id.0, 1);
}
