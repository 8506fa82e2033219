use factorio_printer::schema::{
    get_icons, get_signal_by_number, FactorioBlueprint, FactorioBook,
};

#[test]
fn signal_by_number_names_the_digit() {
    let s = get_signal_by_number(7);
    assert_eq!(s.name, "signal-7");
    assert_eq!(s.signal_type, "virtual");
    let s0 = get_signal_by_number(0);
    assert_eq!(s0.name, "signal-0");
}

#[test]
fn icons_encode_the_four_digits_most_significant_first() {
    let icons = get_icons(1234);
    assert_eq!(icons.len(), 4);
    let names: Vec<&str> = icons.iter().map(|i| i.signal.name.as_str()).collect();
    assert_eq!(names, ["signal-1", "signal-2", "signal-3", "signal-4"]);
    let indices: Vec<i32> = icons.iter().map(|i| i.index).collect();
    assert_eq!(indices, [1, 2, 3, 4]);
}

#[test]
fn icons_of_zero_are_four_zero_signals() {
    let icons = get_icons(0);
    assert_eq!(icons.len(), 4);
    for icon in &icons {
        assert_eq!(icon.signal.name, "signal-0");
        assert_eq!(icon.signal.signal_type, "virtual");
    }
}

#[test]
fn icons_pad_short_values_with_leading_zeros() {
    let icons = get_icons(42);
    let names: Vec<&str> = icons.iter().map(|i| i.signal.name.as_str()).collect();
    assert_eq!(names, ["signal-0", "signal-0", "signal-4", "signal-2"]);
}

#[test]
fn entity_numbers_run_from_one_in_insertion_order() {
    let mut bp = FactorioBlueprint::new();
    bp.add_entity("wooden-chest", 0, 0);
    bp.add_entity("stone-wall", 1, 0);
    bp.add_entity("transport-belt", 2, 5);
    let numbers: Vec<i32> =
        bp.blueprint.entities.iter().map(|e| e.entity_number).collect();
    assert_eq!(numbers, [1, 2, 3]);
    assert_eq!(bp.blueprint.entity_counter, 4);
    assert_eq!(bp.blueprint.entities[2].name, "transport-belt");
    assert_eq!(bp.blueprint.entities[2].position.x, 2);
    assert_eq!(bp.blueprint.entities[2].position.y, 5);
}

#[test]
fn tiles_carry_no_number_and_keep_order() {
    let mut bp = FactorioBlueprint::new();
    bp.add_tile("concrete", 3, 4);
    bp.add_tile("stone-path", 5, 6);
    assert!(bp.blueprint.entities.is_empty());
    assert_eq!(bp.blueprint.tiles.len(), 2);
    assert_eq!(bp.blueprint.tiles[0].name, "concrete");
    assert_eq!(bp.blueprint.tiles[1].position.x, 5);
    // appending tiles never advances the entity counter
    assert_eq!(bp.blueprint.entity_counter, 1);
}

#[test]
fn set_icons_replaces_the_slots() {
    let mut bp = FactorioBlueprint::new();
    bp.set_icons(9999);
    let names: Vec<&str> =
        bp.blueprint.icons.iter().map(|i| i.signal.name.as_str()).collect();
    assert_eq!(names, ["signal-9", "signal-9", "signal-9", "signal-9"]);
    bp.set_icons(105);
    let names: Vec<&str> =
        bp.blueprint.icons.iter().map(|i| i.signal.name.as_str()).collect();
    assert_eq!(names, ["signal-0", "signal-1", "signal-0", "signal-5"]);
}

#[test]
fn set_label_replaces_the_label() {
    let mut bp = FactorioBlueprint::new();
    assert_eq!(bp.blueprint.label, "Blueprint");
    bp.set_label(String::from("my print"));
    assert_eq!(bp.blueprint.label, "my print");
}

#[test]
fn book_slots_store_their_position() {
    let mut book = FactorioBook::new();
    assert_eq!(book.blueprint_book.label, "Book");
    book.set_label(String::from("my book"));
    book.add_blueprint(FactorioBlueprint::new());
    book.add_blueprint(FactorioBlueprint::new());
    book.add_blueprint(FactorioBlueprint::new());
    assert_eq!(book.blueprint_book.label, "my book");
    assert_eq!(book.blueprint_book.blueprints.len(), 3);
    for (k, slot) in book.blueprint_book.blueprints.iter().enumerate() {
        assert_eq!(slot.index, k as i32);
    }
    assert_eq!(book.blueprint_book.active_index, 0);
    assert_eq!(book.blueprint_book.version, 0);
}
