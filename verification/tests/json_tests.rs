use factorio_printer::json::{blueprint_to_json, book_to_json};
use factorio_printer::schema::{FactorioBlueprint, FactorioBook};

#[test]
fn blueprint_json_has_the_blueprint_top_key() {
    let mut bp = FactorioBlueprint::new();
    bp.set_label(String::from("shape"));
    bp.add_tile("concrete", 0, 0);
    bp.add_entity("stone-wall", 1, 0);
    bp.set_icons(12);
    let text = blueprint_to_json(&bp);
    let v: serde_json::Value = serde_json::from_str(&text).expect("valid JSON");
    let obj = v.as_object().expect("top-level object");
    assert_eq!(obj.len(), 1);
    let inner = obj.get("blueprint").expect("blueprint key").as_object().unwrap();
    assert_eq!(inner.get("item").unwrap(), "blueprint");
    assert_eq!(inner.get("label").unwrap(), "shape");
    let entities = inner.get("entities").unwrap().as_array().unwrap();
    assert_eq!(entities.len(), 1);
    assert_eq!(entities[0].get("entity_number").unwrap(), 1);
    assert_eq!(entities[0].get("name").unwrap(), "stone-wall");
    assert_eq!(entities[0].get("position").unwrap().get("x").unwrap(), 1);
    let tiles = inner.get("tiles").unwrap().as_array().unwrap();
    assert_eq!(tiles.len(), 1);
    assert_eq!(tiles[0].get("name").unwrap(), "concrete");
    let icons = inner.get("icons").unwrap().as_array().unwrap();
    assert_eq!(icons.len(), 4);
    assert_eq!(icons[0].get("index").unwrap(), 1);
    assert_eq!(icons[0].get("signal").unwrap().get("name").unwrap(), "signal-0");
    assert_eq!(icons[0].get("signal").unwrap().get("type").unwrap(), "virtual");
    assert_eq!(icons[3].get("signal").unwrap().get("name").unwrap(), "signal-2");
}

#[test]
fn json_escapes_label_characters() {
    let mut bp = FactorioBlueprint::new();
    let label = "a\"b\\c\nd\u{1}e";
    bp.set_label(String::from(label));
    let text = blueprint_to_json(&bp);
    let v: serde_json::Value = serde_json::from_str(&text).expect("valid JSON");
    assert_eq!(v["blueprint"]["label"].as_str().unwrap(), label);
}

#[test]
fn json_writes_negative_positions() {
    let mut bp = FactorioBlueprint::new();
    bp.add_entity("wooden-chest", -5, -17);
    let text = blueprint_to_json(&bp);
    let v: serde_json::Value = serde_json::from_str(&text).expect("valid JSON");
    let pos = &v["blueprint"]["entities"][0]["position"];
    assert_eq!(pos["x"], -5);
    assert_eq!(pos["y"], -17);
}

#[test]
fn book_json_has_the_blueprint_book_top_key() {
    let mut book = FactorioBook::new();
    book.set_label(String::from("the book"));
    let mut bp = FactorioBlueprint::new();
    bp.add_tile("concrete", 0, 0);
    book.add_blueprint(bp);
    book.add_blueprint(FactorioBlueprint::new());
    let text = book_to_json(&book);
    let v: serde_json::Value = serde_json::from_str(&text).expect("valid JSON");
    let obj = v.as_object().expect("top-level object");
    assert_eq!(obj.len(), 1);
    let inner = obj.get("blueprint_book").expect("blueprint_book key").as_object().unwrap();
    assert_eq!(inner.get("item").unwrap(), "blueprint-book");
    assert_eq!(inner.get("label").unwrap(), "the book");
    assert_eq!(inner.get("active_index").unwrap(), 0);
    assert_eq!(inner.get("version").unwrap(), 0);
    let slots = inner.get("blueprints").unwrap().as_array().unwrap();
    assert_eq!(slots.len(), 2);
    assert_eq!(slots[0].get("index").unwrap(), 0);
    assert_eq!(slots[1].get("index").unwrap(), 1);
    let first = slots[0].get("blueprint").unwrap();
    assert_eq!(first.get("tiles").unwrap().as_array().unwrap().len(), 1);
}
