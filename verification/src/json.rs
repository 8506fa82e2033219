use vstd::prelude::*;
use vstd::string::StringExecFns;
use crate::text::{dec_str, escape_seq, append_escaped, i32_to_string, i64_to_string};
use crate::schema::{
    BlueprintV, BookV, EntityV, IconV, PlacedTileV, FactorioBlueprint, FactorioBlueprintInternal,
    FactorioBook, FactorioEntity, FactorioIcon, FactorioTile, entity_views, icon_views, tile_views,
};

verus! {

/// A JSON string literal: the escaped characters between double quotes.
pub open spec fn json_string(s: Seq<char>) -> Seq<char> {
    seq!['"'] + escape_seq(s) + seq!['"']
}

/// A position object: `{"x":<x>,"y":<y>}`.
pub open spec fn json_of_position(x: int, y: int) -> Seq<char> {
    "{\"x\":"@ + dec_str(x) + ",\"y\":"@ + dec_str(y) + "}"@
}

/// An entity object: its number, name and position.
pub open spec fn json_of_entity(e: EntityV) -> Seq<char> {
    "{\"entity_number\":"@ + dec_str(e.number) + ",\"name\":"@ + json_string(e.name)
        + ",\"position\":"@ + json_of_position(e.x, e.y) + "}"@
}

/// A tile object: its name and position.
pub open spec fn json_of_tile(t: PlacedTileV) -> Seq<char> {
    "{\"name\":"@ + json_string(t.name) + ",\"position\":"@ + json_of_position(t.x, t.y) + "}"@
}

/// An icon object: its slot index and its signal, whose serialized field
/// name for the signal type is `type`.
pub open spec fn json_of_icon(ic: IconV) -> Seq<char> {
    "{\"index\":"@ + dec_str(ic.index) + ",\"signal\":{\"name\":"@ + json_string(ic.signal.name)
        + ",\"type\":"@ + json_string(ic.signal.signal_type) + "}}"@
}

/// Comma-separated entity objects, in sequence order.
pub open spec fn json_of_entity_list(s: Seq<EntityV>) -> Seq<char>
    decreases s.len(),
{
    if s.len() == 0 {
        Seq::empty()
    } else if s.len() == 1 {
        json_of_entity(s[0])
    } else {
        json_of_entity_list(s.drop_last()) + seq![','] + json_of_entity(s.last())
    }
}

/// Comma-separated tile objects, in sequence order.
pub open spec fn json_of_tile_list(s: Seq<PlacedTileV>) -> Seq<char>
    decreases s.len(),
{
    if s.len() == 0 {
        Seq::empty()
    } else if s.len() == 1 {
        json_of_tile(s[0])
    } else {
        json_of_tile_list(s.drop_last()) + seq![','] + json_of_tile(s.last())
    }
}

/// Comma-separated icon objects, in sequence order.
pub open spec fn json_of_icon_list(s: Seq<IconV>) -> Seq<char>
    decreases s.len(),
{
    if s.len() == 0 {
        Seq::empty()
    } else if s.len() == 1 {
        json_of_icon(s[0])
    } else {
        json_of_icon_list(s.drop_last()) + seq![','] + json_of_icon(s.last())
    }
}

/// The fields of one blueprint record, as a JSON object.
pub open spec fn json_of_blueprint_inner(bp: BlueprintV) -> Seq<char> {
    "{\"item\":"@ + json_string(bp.item) + ",\"label\":"@ + json_string(bp.label)
        + ",\"entities\":["@ + json_of_entity_list(bp.entities) + "],\"tiles\":["@
        + json_of_tile_list(bp.tiles) + "],\"icons\":["@ + json_of_icon_list(bp.icons) + "]}"@
}

/// A single blueprint on the wire: the record under the top-level
/// `blueprint` key.
pub open spec fn json_of_blueprint(bp: BlueprintV) -> Seq<char> {
    "{\"blueprint\":"@ + json_of_blueprint_inner(bp) + "}"@
}

/// One slot of a book: the 0-based position and the record.
pub open spec fn json_of_book_element(index: int, bp: BlueprintV) -> Seq<char> {
    "{\"index\":"@ + dec_str(index) + ",\"blueprint\":"@ + json_of_blueprint_inner(bp) + "}"@
}

/// Comma-separated book slots; each slot carries its position.
pub open spec fn json_of_book_list(s: Seq<BlueprintV>) -> Seq<char>
    decreases s.len(),
{
    if s.len() == 0 {
        Seq::empty()
    } else if s.len() == 1 {
        json_of_book_element(0, s[0])
    } else {
        json_of_book_list(s.drop_last()) + seq![','] + json_of_book_element(
            s.len() - 1,
            s.last(),
        )
    }
}

/// A book on the wire: its fields under the top-level `blueprint_book` key.
pub open spec fn json_of_book(book: BookV) -> Seq<char> {
    "{\"blueprint_book\":{\"item\":"@ + json_string(book.item) + ",\"label\":"@ + json_string(
        book.label,
    ) + ",\"blueprints\":["@ + json_of_book_list(book.blueprints) + "],\"active_index\":"@
        + dec_str(book.active_index) + ",\"version\":"@ + dec_str(book.version) + "}}"@
}

/// A single blueprint's wire text opens with the top-level `blueprint`
/// key, for every record.
pub proof fn lemma_blueprint_json_top_key(bp: BlueprintV)
    ensures
        json_of_blueprint(bp).len() > 13,
        json_of_blueprint(bp).subrange(0, 13) == "{\"blueprint\":"@,
{
    reveal_strlit("{\"blueprint\":");
    reveal_strlit("{\"item\":");
    reveal_strlit("}");
    assert(json_of_blueprint(bp).subrange(0, 13) =~= "{\"blueprint\":"@);
}

/// A book's wire text opens with the top-level `blueprint_book` key, for
/// every book.
pub proof fn lemma_book_json_top_key(book: BookV)
    ensures
        json_of_book(book).len() > 18,
        json_of_book(book).subrange(0, 18) == "{\"blueprint_book\":"@,
{
    reveal_strlit("{\"blueprint_book\":{\"item\":");
    reveal_strlit("{\"blueprint_book\":");
    assert(json_of_book(book).subrange(0, 18) =~= "{\"blueprint_book\":"@);
}

/// No blueprint's wire text is any book's wire text: the two top-level
/// keys differ.
pub proof fn lemma_blueprint_never_book(bp: BlueprintV, book: BookV)
    ensures
        json_of_blueprint(bp) != json_of_book(book),
{
    lemma_blueprint_json_top_key(bp);
    lemma_book_json_top_key(book);
    reveal_strlit("{\"blueprint\":");
    reveal_strlit("{\"blueprint_book\":");
    assert(json_of_blueprint(bp)[11] == json_of_blueprint(bp).subrange(0, 13)[11]);
    assert(json_of_book(book)[11] == json_of_book(book).subrange(0, 18)[11]);
    assert(json_of_blueprint(bp)[11] == '\"');
    assert(json_of_book(book)[11] == '_');
}

/// Appends `s` as a JSON string literal.
fn append_json_string(out: &mut String, s: &str)
    ensures
        final(out)@ == old(out)@ + json_string(s@),
{
    proof {
        reveal_strlit("\"");
    }
    out.append("\"");
    append_escaped(out, s);
    out.append("\"");
    proof {
        assert(out@ =~= old(out)@ + json_string(s@));
    }
}

/// Appends a position object.
fn append_position(out: &mut String, x: i32, y: i32)
    ensures
        final(out)@ == old(out)@ + json_of_position(x as int, y as int),
{
    out.append("{\"x\":");
    let xs = i32_to_string(x);
    out.append(xs.as_str());
    out.append(",\"y\":");
    let ys = i32_to_string(y);
    out.append(ys.as_str());
    out.append("}");
    proof {
        assert(out@ =~= old(out)@ + json_of_position(x as int, y as int));
    }
}

/// Appends one entity object.
fn append_entity(out: &mut String, e: &FactorioEntity)
    ensures
        final(out)@ == old(out)@ + json_of_entity(e@),
{
    out.append("{\"entity_number\":");
    let ns = i32_to_string(e.entity_number);
    out.append(ns.as_str());
    out.append(",\"name\":");
    append_json_string(out, e.name.as_str());
    out.append(",\"position\":");
    append_position(out, e.position.x, e.position.y);
    out.append("}");
    proof {
        assert(out@ =~= old(out)@ + json_of_entity(e@));
    }
}

/// Appends one tile object.
fn append_tile(out: &mut String, t: &FactorioTile)
    ensures
        final(out)@ == old(out)@ + json_of_tile(t@),
{
    out.append("{\"name\":");
    append_json_string(out, t.name.as_str());
    out.append(",\"position\":");
    append_position(out, t.position.x, t.position.y);
    out.append("}");
    proof {
        assert(out@ =~= old(out)@ + json_of_tile(t@));
    }
}

/// Appends one icon object.
fn append_icon(out: &mut String, ic: &FactorioIcon)
    ensures
        final(out)@ == old(out)@ + json_of_icon(ic@),
{
    out.append("{\"index\":");
    let ns = i32_to_string(ic.index);
    out.append(ns.as_str());
    out.append(",\"signal\":{\"name\":");
    append_json_string(out, ic.signal.name.as_str());
    out.append(",\"type\":");
    append_json_string(out, ic.signal.signal_type.as_str());
    out.append("}}");
    proof {
        assert(out@ =~= old(out)@ + json_of_icon(ic@));
    }
}

/// Appends the comma-separated entity objects.
fn append_entity_list(out: &mut String, v: &Vec<FactorioEntity>)
    ensures
        final(out)@ == old(out)@ + json_of_entity_list(entity_views(v@)),
{
    let mut i: usize = 0;
    while i < v.len()
        invariant
            i <= v@.len(),
            out@ == old(out)@ + json_of_entity_list(entity_views(v@).take(i as int)),
        decreases v@.len() - i,
    {
        if i > 0 {
            out.append(",");
            proof {
                reveal_strlit(",");
            }
        }
        append_entity(out, &v[i]);
        proof {
            let s = entity_views(v@);
            assert(s.take(i + 1).drop_last() =~= s.take(i as int));
            assert(s.take(i + 1).last() == v@[i as int]@);
            assert(out@ =~= old(out)@ + json_of_entity_list(s.take(i + 1)));
        }
        i += 1;
    }
    proof {
        assert(entity_views(v@).take(v@.len() as int) =~= entity_views(v@));
    }
}

/// Appends the comma-separated tile objects.
fn append_tile_list(out: &mut String, v: &Vec<FactorioTile>)
    ensures
        final(out)@ == old(out)@ + json_of_tile_list(tile_views(v@)),
{
    let mut i: usize = 0;
    while i < v.len()
        invariant
            i <= v@.len(),
            out@ == old(out)@ + json_of_tile_list(tile_views(v@).take(i as int)),
        decreases v@.len() - i,
    {
        if i > 0 {
            out.append(",");
            proof {
                reveal_strlit(",");
            }
        }
        append_tile(out, &v[i]);
        proof {
            let s = tile_views(v@);
            assert(s.take(i + 1).drop_last() =~= s.take(i as int));
            assert(s.take(i + 1).last() == v@[i as int]@);
            assert(out@ =~= old(out)@ + json_of_tile_list(s.take(i + 1)));
        }
        i += 1;
    }
    proof {
        assert(tile_views(v@).take(v@.len() as int) =~= tile_views(v@));
    }
}

/// Appends the comma-separated icon objects.
fn append_icon_list(out: &mut String, v: &Vec<FactorioIcon>)
    ensures
        final(out)@ == old(out)@ + json_of_icon_list(icon_views(v@)),
{
    let mut i: usize = 0;
    while i < v.len()
        invariant
            i <= v@.len(),
            out@ == old(out)@ + json_of_icon_list(icon_views(v@).take(i as int)),
        decreases v@.len() - i,
    {
        if i > 0 {
            out.append(",");
            proof {
                reveal_strlit(",");
            }
        }
        append_icon(out, &v[i]);
        proof {
            let s = icon_views(v@);
            assert(s.take(i + 1).drop_last() =~= s.take(i as int));
            assert(s.take(i + 1).last() == v@[i as int]@);
            assert(out@ =~= old(out)@ + json_of_icon_list(s.take(i + 1)));
        }
        i += 1;
    }
    proof {
        assert(icon_views(v@).take(v@.len() as int) =~= icon_views(v@));
    }
}

/// Appends the fields of one blueprint record as a JSON object.
fn append_blueprint_inner(out: &mut String, bp: &FactorioBlueprintInternal)
    ensures
        final(out)@ == old(out)@ + json_of_blueprint_inner(bp@),
{
    out.append("{\"item\":");
    append_json_string(out, bp.item.as_str());
    out.append(",\"label\":");
    append_json_string(out, bp.label.as_str());
    out.append(",\"entities\":[");
    append_entity_list(out, &bp.entities);
    out.append("],\"tiles\":[");
    append_tile_list(out, &bp.tiles);
    out.append("],\"icons\":[");
    append_icon_list(out, &bp.icons);
    out.append("]}");
    proof {
        assert(out@ =~= old(out)@ + json_of_blueprint_inner(bp@));
    }
}

/// The canonical JSON text of a single blueprint, under the top-level
/// `blueprint` key.
pub fn blueprint_to_json(bp: &FactorioBlueprint) -> (r: String)
    ensures
        r@ == json_of_blueprint(bp@),
{
    let mut out = String::new();
    out.append("{\"blueprint\":");
    append_blueprint_inner(&mut out, &bp.blueprint);
    out.append("}");
    proof {
        assert(out@ =~= json_of_blueprint(bp@));
    }
    out
}

/// The canonical JSON text of a book, under the top-level `blueprint_book`
/// key. Each slot must store its own position, as the book's append
/// operation guarantees.
#[verifier::rlimit(60)]
pub fn book_to_json(book: &FactorioBook) -> (r: String)
    requires
        book.wf(),
    ensures
        r@ == json_of_book(book@),
{
    let mut out = String::new();
    out.append("{\"blueprint_book\":{\"item\":");
    append_json_string(&mut out, book.blueprint_book.item.as_str());
    out.append(",\"label\":");
    append_json_string(&mut out, book.blueprint_book.label.as_str());
    out.append(",\"blueprints\":[");
    let v = &book.blueprint_book.blueprints;
    let mut i: usize = 0;
    while i < v.len()
        invariant
            i <= v@.len(),
            book.wf(),
            v == book.blueprint_book.blueprints,
            out@ == "{\"blueprint_book\":{\"item\":"@ + json_string(book@.item) + ",\"label\":"@
                + json_string(book@.label) + ",\"blueprints\":["@ + json_of_book_list(
                book@.blueprints.take(i as int),
            ),
        decreases v@.len() - i,
    {
        if i > 0 {
            out.append(",");
            proof {
                reveal_strlit(",");
            }
        }
        out.append("{\"index\":");
        let ns = i32_to_string(v[i].index);
        out.append(ns.as_str());
        out.append(",\"blueprint\":");
        append_blueprint_inner(&mut out, &v[i].blueprint);
        out.append("}");
        proof {
            let s = book@.blueprints;
            assert(s.take(i + 1).drop_last() =~= s.take(i as int));
            assert(s.take(i + 1).last() == s[i as int]);
            assert(v@[i as int].index == i as int);
            assert(out@ =~= "{\"blueprint_book\":{\"item\":"@ + json_string(book@.item)
                + ",\"label\":"@ + json_string(book@.label) + ",\"blueprints\":["@
                + json_of_book_list(s.take(i + 1)));
        }
        i += 1;
    }
    out.append("],\"active_index\":");
    let ais = i32_to_string(book.blueprint_book.active_index);
    out.append(ais.as_str());
    out.append(",\"version\":");
    let vs = i64_to_string(book.blueprint_book.version);
    out.append(vs.as_str());
    out.append("}}");
    proof {
        assert(book@.blueprints.take(book@.blueprints.len() as int) =~= book@.blueprints);
        assert(out@ =~= json_of_book(book@));
    }
    out
}

} // verus!
