use automancy_core::id::IdRaw;
use automancy_core::resource::ResourceManager;
use automancy_core::translate::TranslateRaw;

fn entry(ns: &str, name: &str, text: &str) -> (IdRaw, String) {
    (IdRaw::new(ns, name), text.to_string())
}

#[test]
fn names_come_from_the_loaded_locale() {
    let mut rm = ResourceManager::new();
    rm.load_translate(&TranslateRaw {
        items: vec![entry("pack", "ore", "Iron Ore")],
        tiles: vec![entry("pack", "wall", "Wall"), entry("pack", "belt", "Belt")],
        gui: vec![entry("pack", "title", "Automancy")],
    });
    let ore = rm.interner.intern("pack", "ore");
    let wall = rm.interner.intern("pack", "wall");
    let belt = rm.interner.intern("pack", "belt");
    let title = rm.interner.intern("pack", "title");
    assert_eq!(rm.item_name(&ore), "Iron Ore");
    assert_eq!(rm.tile_name(&wall), "Wall");
    assert_eq!(rm.tile_name(&belt), "Belt");
    assert_eq!(rm.translates.gui.get(&title.0).map(|s| s.as_str()), Some("Automancy"));
    assert_eq!(rm.tile_name(&ore), "<unnamed>");
    assert_eq!(rm.item_name(&wall), "<unnamed>");
    assert_eq!(rm.try_item_name(&Some(ore)), "Iron Ore");
    assert_eq!(rm.try_item_name(&None), "<none>");
    assert_eq!(rm.try_tile_name(&Some(wall)), "Wall");
    assert_eq!(rm.try_tile_name(&None), "<none>");
}

#[test]
fn later_entry_with_same_name_wins() {
    let mut rm = ResourceManager::new();
    rm.load_translate(&TranslateRaw {
        items: vec![entry("pack", "ore", "Ore"), entry("pack", "ore", "Iron Ore")],
        tiles: vec![],
        gui: vec![],
    });
    let ore = rm.interner.intern("pack", "ore");
    assert_eq!(rm.item_name(&ore), "Iron Ore");
    assert_eq!(rm.translates.items.len(), 1);
}

#[test]
fn a_new_locale_replaces_the_old_one() {
    let mut rm = ResourceManager::new();
    rm.load_translate(&TranslateRaw { items: vec![entry("pack", "ore", "Ore")], tiles: vec![], gui: vec![] });
    rm.load_translate(&TranslateRaw { items: vec![], tiles: vec![], gui: vec![] });
    let ore = rm.interner.intern("pack", "ore");
    assert_eq!(rm.item_name(&ore), "<unnamed>");
}
