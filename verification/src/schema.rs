use vstd::prelude::*;
use vstd::string::StringExecFns;
use crate::text::{dec_digits, digit_str};

verus! {

/// A virtual signal, named after one decimal digit.
#[derive(Debug)]
pub struct FactorioSignal {
    pub name: String,
    pub signal_type: String,
}

/// The mathematical model of a signal.
pub ghost struct SignalV {
    pub name: Seq<char>,
    pub signal_type: Seq<char>,
}

impl View for FactorioSignal {
    type V = SignalV;

    open spec fn view(&self) -> SignalV {
        SignalV { name: self.name@, signal_type: self.signal_type@ }
    }
}

/// One icon slot: a 1-based slot index holding a signal.
#[derive(Debug)]
pub struct FactorioIcon {
    pub index: i32,
    pub signal: FactorioSignal,
}

/// The mathematical model of an icon slot.
pub ghost struct IconV {
    pub index: int,
    pub signal: SignalV,
}

impl View for FactorioIcon {
    type V = IconV;

    open spec fn view(&self) -> IconV {
        IconV { index: self.index as int, signal: self.signal@ }
    }
}

/// A position on the blueprint grid.
#[derive(Debug)]
pub struct FactorioPosition {
    pub x: i32,
    pub y: i32,
}

/// A numbered entity placement.
#[derive(Debug)]
pub struct FactorioEntity {
    pub entity_number: i32,
    pub name: String,
    pub position: FactorioPosition,
}

/// The mathematical model of an entity placement.
pub ghost struct EntityV {
    pub number: int,
    pub name: Seq<char>,
    pub x: int,
    pub y: int,
}

impl View for FactorioEntity {
    type V = EntityV;

    open spec fn view(&self) -> EntityV {
        EntityV {
            number: self.entity_number as int,
            name: self.name@,
            x: self.position.x as int,
            y: self.position.y as int,
        }
    }
}

/// An unnumbered tile placement.
#[derive(Debug)]
pub struct FactorioTile {
    pub name: String,
    pub position: FactorioPosition,
}

/// The mathematical model of a tile placement.
pub ghost struct PlacedTileV {
    pub name: Seq<char>,
    pub x: int,
    pub y: int,
}

impl View for FactorioTile {
    type V = PlacedTileV;

    open spec fn view(&self) -> PlacedTileV {
        PlacedTileV { name: self.name@, x: self.position.x as int, y: self.position.y as int }
    }
}

/// The models of a sequence of icon slots.
pub open spec fn icon_views(s: Seq<FactorioIcon>) -> Seq<IconV> {
    s.map(|i: int, x: FactorioIcon| x@)
}

/// The models of a sequence of entity placements.
pub open spec fn entity_views(s: Seq<FactorioEntity>) -> Seq<EntityV> {
    s.map(|i: int, x: FactorioEntity| x@)
}

/// The models of a sequence of tile placements.
pub open spec fn tile_views(s: Seq<FactorioTile>) -> Seq<PlacedTileV> {
    s.map(|i: int, x: FactorioTile| x@)
}

/// The signal that encodes one decimal digit: `signal-<digit>`, of the
/// `virtual` type.
pub open spec fn signal_of(d: int) -> SignalV {
    SignalV { name: "signal-"@ + dec_digits(d), signal_type: "virtual"@ }
}

/// The four icon slots that encode an integer in 0..=9999 as its four
/// decimal digits, most significant first, at slot indices 1 to 4.
pub open spec fn icons_of(v: int) -> Seq<IconV> {
    seq![
        IconV { index: 1, signal: signal_of(v / 1000 % 10) },
        IconV { index: 2, signal: signal_of(v / 100 % 10) },
        IconV { index: 3, signal: signal_of(v / 10 % 10) },
        IconV { index: 4, signal: signal_of(v % 10) },
    ]
}

/// The signal for one decimal digit. The value must be a digit:
/// passing anything else is a fatal caller error.
pub fn get_signal_by_number(value: i32) -> (r: FactorioSignal)
    requires
        0 <= value <= 9,
    ensures
        r@ == signal_of(value as int),
{
    let mut name: String = "signal-".to_owned();
    name.append(digit_str(value as u32));
    let r = FactorioSignal { name, signal_type: "virtual".to_owned() };
    proof {
        assert(r@.name =~= signal_of(value as int).name);
    }
    r
}

/// The four icon slots for an integer in 0..=9999; passing anything
/// else is a fatal caller error.
pub fn get_icons(value: i32) -> (r: Vec<FactorioIcon>)
    requires
        0 <= value <= 9999,
    ensures
        icon_views(r@) == icons_of(value as int),
{
    let digit0 = (value / 1000) % 10;
    let digit1 = (value / 100) % 10;
    let digit2 = (value / 10) % 10;
    let digit3 = value % 10;
    let mut r: Vec<FactorioIcon> = Vec::new();
    r.push(FactorioIcon { index: 1, signal: get_signal_by_number(digit0) });
    r.push(FactorioIcon { index: 2, signal: get_signal_by_number(digit1) });
    r.push(FactorioIcon { index: 3, signal: get_signal_by_number(digit2) });
    r.push(FactorioIcon { index: 4, signal: get_signal_by_number(digit3) });
    proof {
        assert(icon_views(r@) =~= icons_of(value as int));
    }
    r
}

/// The mathematical model of one blueprint record.
pub ghost struct BlueprintV {
    pub item: Seq<char>,
    pub label: Seq<char>,
    pub entities: Seq<EntityV>,
    pub tiles: Seq<PlacedTileV>,
    pub icons: Seq<IconV>,
    pub entity_counter: int,
}

impl BlueprintV {
    /// Entity numbers are contiguous from 1 in insertion order, and the
    /// counter holds the next number to assign.
    pub open spec fn wf(self) -> bool {
        &&& self.item == "blueprint"@
        &&& self.entity_counter == self.entities.len() + 1
        &&& forall|k: int|
            0 <= k < self.entities.len() ==> #[trigger] self.entities[k].number == k + 1
    }
}

/// The fields of a blueprint record, nested under the `blueprint` key on
/// the wire.
#[derive(Debug)]
pub struct FactorioBlueprintInternal {
    pub item: String,
    pub label: String,
    pub entities: Vec<FactorioEntity>,
    pub tiles: Vec<FactorioTile>,
    pub icons: Vec<FactorioIcon>,
    pub entity_counter: i32,
}

impl View for FactorioBlueprintInternal {
    type V = BlueprintV;

    open spec fn view(&self) -> BlueprintV {
        BlueprintV {
            item: self.item@,
            label: self.label@,
            entities: entity_views(self.entities@),
            tiles: tile_views(self.tiles@),
            icons: icon_views(self.icons@),
            entity_counter: self.entity_counter as int,
        }
    }
}

/// One blueprint record: an ordered list of numbered entities, an ordered
/// list of unnumbered tiles, up to four icon slots, and a label.
#[derive(Debug)]
pub struct FactorioBlueprint {
    pub blueprint: FactorioBlueprintInternal,
}

impl View for FactorioBlueprint {
    type V = BlueprintV;

    open spec fn view(&self) -> BlueprintV {
        self.blueprint@
    }
}

/// The model of a freshly created blueprint record.
pub open spec fn empty_blueprint() -> BlueprintV {
    BlueprintV {
        item: "blueprint"@,
        label: "Blueprint"@,
        entities: Seq::empty(),
        tiles: Seq::empty(),
        icons: Seq::empty(),
        entity_counter: 1,
    }
}

impl FactorioBlueprint {
    /// An empty blueprint with the default label and the entity counter at
    /// its starting value 1.
    pub fn new() -> (r: FactorioBlueprint)
        ensures
            r@ == empty_blueprint(),
            r@.wf(),
    {
        let bp = FactorioBlueprintInternal {
            item: "blueprint".to_owned(),
            label: "Blueprint".to_owned(),
            entities: Vec::new(),
            tiles: Vec::new(),
            icons: Vec::new(),
            entity_counter: 1,
        };
        let r = FactorioBlueprint { blueprint: bp };
        proof {
            assert(r@.entities =~= empty_blueprint().entities);
            assert(r@.tiles =~= empty_blueprint().tiles);
            assert(r@.icons =~= empty_blueprint().icons);
        }
        r
    }

    /// Appends an entity carrying the next entity number, and advances the
    /// counter.
    pub fn add_entity(&mut self, name: &str, x: i32, y: i32)
        requires
            old(self)@.entity_counter < i32::MAX,
        ensures
            final(self)@ == (BlueprintV {
                entities: old(self)@.entities.push(
                    EntityV {
                        number: old(self)@.entity_counter,
                        name: name@,
                        x: x as int,
                        y: y as int,
                    },
                ),
                entity_counter: old(self)@.entity_counter + 1,
                ..old(self)@
            }),
    {
        let number = self.blueprint.entity_counter;
        self.blueprint.entities.push(
            FactorioEntity {
                entity_number: number,
                name: name.to_owned(),
                position: FactorioPosition { x, y },
            },
        );
        self.blueprint.entity_counter = number + 1;
        proof {
            assert(self@.entities =~= old(self)@.entities.push(
                EntityV {
                    number: old(self)@.entity_counter,
                    name: name@,
                    x: x as int,
                    y: y as int,
                },
            ));
        }
    }

    /// Appends a tile; tiles carry no number.
    pub fn add_tile(&mut self, name: &str, x: i32, y: i32)
        ensures
            final(self)@ == (BlueprintV {
                tiles: old(self)@.tiles.push(
                    PlacedTileV { name: name@, x: x as int, y: y as int },
                ),
                ..old(self)@
            }),
    {
        self.blueprint.tiles.push(
            FactorioTile { name: name.to_owned(), position: FactorioPosition { x, y } },
        );
        proof {
            assert(self@.tiles =~= old(self)@.tiles.push(
                PlacedTileV { name: name@, x: x as int, y: y as int },
            ));
        }
    }

    /// Replaces the icon slots with the four digits of `value`, which must
    /// lie in 0..=9999: passing anything else is a fatal caller error.
    pub fn set_icons(&mut self, value: i32)
        requires
            0 <= value <= 9999,
        ensures
            final(self)@ == (BlueprintV { icons: icons_of(value as int), ..old(self)@ }),
    {
        self.blueprint.icons = get_icons(value);
    }

    /// Replaces the label.
    pub fn set_label(&mut self, label: String)
        ensures
            final(self)@ == (BlueprintV { label: label@, ..old(self)@ }),
    {
        self.blueprint.label = label;
    }
}

/// One slot of a book: a blueprint paired with its 0-based position.
#[derive(Debug)]
pub struct FactorioBookBlueprintVecElement {
    pub index: i32,
    pub blueprint: FactorioBlueprintInternal,
}

/// The fields of a blueprint book, nested under the `blueprint_book` key
/// on the wire.
#[derive(Debug)]
pub struct FactorioBookInternal {
    pub item: String,
    pub label: String,
    pub blueprints: Vec<FactorioBookBlueprintVecElement>,
    pub active_index: i32,
    pub version: i64,
}

/// The mathematical model of a book: its label and its blueprints in
/// order. Each slot's stored index always equals its position.
pub ghost struct BookV {
    pub item: Seq<char>,
    pub label: Seq<char>,
    pub blueprints: Seq<BlueprintV>,
    pub active_index: int,
    pub version: int,
}

/// A named, ordered collection of blueprint records.
#[derive(Debug)]
pub struct FactorioBook {
    pub blueprint_book: FactorioBookInternal,
}

impl View for FactorioBook {
    type V = BookV;

    open spec fn view(&self) -> BookV {
        BookV {
            item: self.blueprint_book.item@,
            label: self.blueprint_book.label@,
            blueprints: self.blueprint_book.blueprints@.map(
                |i: int, e: FactorioBookBlueprintVecElement| e.blueprint@,
            ),
            active_index: self.blueprint_book.active_index as int,
            version: self.blueprint_book.version as int,
        }
    }
}

impl FactorioBook {
    /// Every slot stores its own 0-based position as its index.
    pub open spec fn wf(self) -> bool {
        &&& self@.item == "blueprint-book"@
        &&& self@.active_index == 0
        &&& self@.version == 0
        &&& forall|k: int|
            0 <= k < self.blueprint_book.blueprints@.len()
                ==> #[trigger] self.blueprint_book.blueprints@[k].index == k
    }

    /// An empty book with the default label, active index 0 and version 0.
    pub fn new() -> (r: FactorioBook)
        ensures
            r@.label == "Book"@,
            r@.blueprints == Seq::<BlueprintV>::empty(),
            r.wf(),
    {
        let book = FactorioBookInternal {
            item: "blueprint-book".to_owned(),
            label: "Book".to_owned(),
            blueprints: Vec::new(),
            active_index: 0,
            version: 0,
        };
        let r = FactorioBook { blueprint_book: book };
        proof {
            assert(r@.blueprints =~= Seq::<BlueprintV>::empty());
        }
        r
    }

    /// Appends a blueprint, storing its 0-based position as its index.
    pub fn add_blueprint(&mut self, bp: FactorioBlueprint)
        requires
            old(self).wf(),
            old(self)@.blueprints.len() < i32::MAX,
        ensures
            final(self)@ == (BookV { blueprints: old(self)@.blueprints.push(bp@), ..old(self)@ }),
            final(self).wf(),
    {
        let index = self.blueprint_book.blueprints.len() as i32;
        self.blueprint_book.blueprints.push(
            FactorioBookBlueprintVecElement { index, blueprint: bp.blueprint },
        );
        proof {
            assert(self@.blueprints =~= old(self)@.blueprints.push(bp@));
        }
    }

    /// Replaces the label.
    pub fn set_label(&mut self, label: String)
        ensures
            final(self)@ == (BookV { label: label@, ..old(self)@ }),
            final(self).wf() == old(self).wf(),
    {
        self.blueprint_book.label = label;
    }
}

} // verus!
