//! The library's stated laws, proved over the spec model: encoding is
//! deterministic, geometry properties keep their fixed order, booleans
//! render as digits, the inner-boundary wrapper appears exactly when
//! inner rings exist, unknown tags decode to the generic element, and
//! decoding inverts encoding for every tree [`round_trip_ready`]
//! admits — all variants but the bare icon node, whose tag the
//! link-shaped icon owns on decode.
use vstd::prelude::*;

use crate::parse::MachineV;
use crate::parse::PartialV;
use crate::parse::machine_done;
use crate::parse::machine_init;
use crate::parse::machine_run;
use crate::parse::machine_step;
use crate::parse::spec_parse_events;
use crate::xml::EventV;
use crate::xml::emit;
use crate::xml::emit_seq;

use crate::decode::am_field;
use crate::decode::attr_of;
use crate::decode::bool_field;
use crate::decode::coords_field;
use crate::decode::field_text;
use crate::decode::first_child;
use crate::decode::first_geom_idx;
use crate::decode::geoms_of;
use crate::decode::interpret_list;
use crate::decode::interpret_ring;
use crate::decode::is_geom_name;
use crate::decode::keep_children;
use crate::decode::rings_of;
use crate::decode::spec_interpret_geometry;
use crate::decode::spec_interpret;
use crate::encode::geom_props_children;
use crate::encode::lower_line_string_v;
use crate::encode::lower_linear_ring_v;
use crate::encode::lower_point_v;
use crate::encode::lower_polygon_v;
use crate::encode::lower_v;
use crate::encode::lower_seq_v;
use crate::encode::lower_geometry_v;
use crate::encode::lower_geoms_v;
use crate::encode::lower_scale_v;
use crate::encode::lower_orientation_v;
use crate::encode::lower_location_v;
use crate::encode::node_el;
use crate::views::GeometryV;
use crate::views::LinearRingV;
use crate::encode::text_el;
use crate::txt::bool_text;
use crate::txt::coord_text;
use crate::txt::coords_text;
use crate::txt::field_len;
use crate::txt::is_space;
use crate::txt::parse_coord_list;
use crate::txt::spec_parse_coord;
use crate::txt::spec_parse_coords;
use crate::txt::spec_tokens;
use crate::txt::split_fields;
use crate::txt::lemma_field_len_at;
use crate::txt::lemma_token_len_at;
use crate::model::attrs_wf;
use crate::model::valid_number;
use crate::model::valid_body_at;
use crate::model::number_body;
use crate::model::is_digit;
use crate::views::CoordV;

use crate::views::ElementV;
use crate::views::KmlV;
use crate::views::LineStringV;
use crate::views::PointV;
use crate::views::PolygonV;
use crate::writer::kml_text;

verus! {

/// Encoding is deterministic: equal trees render to identical text.
pub proof fn lemma_encode_deterministic(a: KmlV, b: KmlV)
    requires
        a == b,
    ensures
        kml_text(a) == kml_text(b),
{
}

/// A line-type geometry writes its shared properties in the fixed
/// order extrude, tessellate, altitudeMode, coordinates — the last
/// omitted exactly when the coordinate list is empty.
pub proof fn lemma_geometry_property_order(l: LineStringV)
    ensures
        lower_line_string_v(l).children[0].name == "extrude"@,
        lower_line_string_v(l).children[1].name == "tessellate"@,
        lower_line_string_v(l).children[2].name == "altitudeMode"@,
        l.coords.len() == 0 ==> lower_line_string_v(l).children.len() == 3,
        l.coords.len() > 0 ==> lower_line_string_v(l).children.len() == 4
            && lower_line_string_v(l).children[3].name == "coordinates"@,
{
    let ch = lower_line_string_v(l).children;
    assert(ch == geom_props_children(l.extrude, Some(l.tessellate), l.altitude_mode, l.coords));
}

/// A point writes extrude, then altitudeMode, then coordinates.
pub proof fn lemma_point_property_order(p: PointV)
    ensures
        lower_point_v(p).children.len() == 3,
        lower_point_v(p).children[0].name == "extrude"@,
        lower_point_v(p).children[1].name == "altitudeMode"@,
        lower_point_v(p).children[2].name == "coordinates"@,
{
}

/// Boolean fields render exactly as `"0"` / `"1"`: the extrude child
/// of any point, and the law of the boolean text itself.
pub proof fn lemma_boolean_fields(p: PointV)
    ensures
        bool_text(true) == "1"@,
        bool_text(false) == "0"@,
        lower_point_v(p).children[0] == text_el(
            "extrude"@,
            if p.extrude {
                "1"@
            } else {
                "0"@
            },
        ),
{
}

/// A polygon with no inner rings writes no inner-boundary wrapper; a
/// polygon with inner rings writes exactly one, holding one linear
/// ring per inner boundary, in order.
pub proof fn lemma_polygon_inner_boundary(p: PolygonV)
    ensures
        p.inner.len() == 0 ==> lower_polygon_v(p).children.len() == 4,
        p.inner.len() == 0 ==> forall|i: int|
            0 <= i < lower_polygon_v(p).children.len() ==> (
            #[trigger] lower_polygon_v(p).children[i]).name != "innerBoundaryIs"@,
        p.inner.len() > 0 ==> {
            let ch = lower_polygon_v(p).children;
            &&& ch.len() == 5
            &&& ch[4].name == "innerBoundaryIs"@
            &&& ch[4].children.len() == p.inner.len()
            &&& (forall|i: int|
                0 <= i < p.inner.len() ==> ch[4].children[i] == lower_linear_ring_v(
                    #[trigger] p.inner[i],
                ))
            &&& forall|i: int| 0 <= i < 4 ==> (#[trigger] ch[i]).name != "innerBoundaryIs"@
        },
{
    reveal_strlit("extrude");
    reveal_strlit("tessellate");
    reveal_strlit("altitudeMode");
    reveal_strlit("outerBoundaryIs");
    reveal_strlit("innerBoundaryIs");
    let ch = lower_polygon_v(p).children;
    assert("extrude"@.len() != "innerBoundaryIs"@.len());
    assert("tessellate"@.len() != "innerBoundaryIs"@.len());
    assert("altitudeMode"@.len() != "innerBoundaryIs"@.len());
    assert("outerBoundaryIs"@[0] == 'o' && "innerBoundaryIs"@[0] == 'i');
    assert("outerBoundaryIs"@ != "innerBoundaryIs"@);
    if p.inner.len() > 0 {
        assert(ch[4].children == p.inner.map_values(
            |r: crate::views::LinearRingV| lower_linear_ring_v(r),
        ));
    }
}

/// Every tag the decoder's dispatch recognizes.
pub open spec fn recognized(n: Seq<char>) -> bool {
    ||| n == "kml"@
    ||| n == "Document"@
    ||| n == "Folder"@
    ||| is_geom_name(n)
    ||| n == "Scale"@
    ||| n == "Orientation"@
    ||| n == "Location"@
    ||| n == "Placemark"@
    ||| n == "Style"@
    ||| n == "StyleMap"@
    ||| n == "Pair"@
    ||| n == "BalloonStyle"@
    ||| n == "IconStyle"@
    ||| n == "LabelStyle"@
    ||| n == "LineStyle"@
    ||| n == "PolyStyle"@
    ||| n == "ListStyle"@
    ||| n == "Icon"@
    ||| n == "Link"@
    ||| n == "ResourceMap"@
    ||| n == "Alias"@
    ||| n == "SchemaData"@
    ||| n == "SimpleArrayData"@
    ||| n == "SimpleData"@
}

/// An unrecognized element decodes to the generic element variant,
/// preserving its tag, attributes, text, and children verbatim —
/// never an error.
pub proof fn lemma_unknown_element_preserved(e: ElementV)
    requires
        !recognized(e.name),
    ensures
        spec_interpret(e) == Ok::<KmlV, crate::views::KmlErrorV>(KmlV::Element(e)),
{
}

// -------------------------------------------------------------------
// The decoder inverts the encoder, event side: feeding an element's
// own event sequence to the builder-stack machine rebuilds exactly
// that element.
// -------------------------------------------------------------------

/// `machine_run`, rephrased over the remaining event list.
pub open spec fn run_events(evs: Seq<EventV>, m: MachineV) -> MachineV
    decreases evs.len(),
{
    if evs.len() == 0 {
        m
    } else {
        run_events(evs.drop_first(), machine_step(m, evs[0]))
    }
}

/// The two formulations agree.
pub proof fn lemma_run_events_eq(evs: Seq<EventV>, i: int, m: MachineV)
    requires
        0 <= i <= evs.len(),
    ensures
        machine_run(evs, i, m) == run_events(evs.skip(i), m),
    decreases evs.len() - i,
{
    if i < evs.len() {
        assert(evs.skip(i)[0] == evs[i]);
        assert(evs.skip(i).drop_first() =~= evs.skip(i + 1));
        lemma_run_events_eq(evs, i + 1, machine_step(m, evs[i]));
    }
}

/// Running distributes over concatenation.
pub proof fn lemma_run_concat(a: Seq<EventV>, b: Seq<EventV>, m: MachineV)
    ensures
        run_events(a + b, m) == run_events(b, run_events(a, m)),
    decreases a.len(),
{
    if a.len() == 0 {
        assert(a + b =~= b);
    } else {
        assert((a + b).drop_first() =~= a.drop_first() + b);
        assert((a + b)[0] == a[0]);
        lemma_run_concat(a.drop_first(), b, machine_step(m, a[0]));
    }
}

/// A finished machine ignores the rest of the stream.
pub proof fn lemma_run_events_done(evs: Seq<EventV>, m: MachineV)
    requires
        machine_done(m),
    ensures
        run_events(evs, m) == m,
    decreases evs.len(),
{
    if evs.len() > 0 {
        assert(machine_step(m, evs[0]) == m);
        lemma_run_events_done(evs.drop_first(), m);
    }
}

/// Feeding one element's events to the machine attaches exactly that
/// element: to the open parent, or as the finished root.
pub proof fn lemma_run_emit(e: ElementV, m: MachineV)
    requires
        !machine_done(m),
    ensures
        m.stack.len() == 0 ==> run_events(emit(e), m) == (MachineV {
            stack: m.stack,
            out: Some(e),
            err: None,
        }),
        m.stack.len() > 0 ==> run_events(emit(e), m) == (MachineV {
            stack: m.stack.update(
                m.stack.len() - 1,
                PartialV {
                    name: m.stack.last().name,
                    attrs: m.stack.last().attrs,
                    content: m.stack.last().content,
                    children: m.stack.last().children.push(e),
                },
            ),
            out: None,
            err: None,
        }),
    decreases e,
{
    reveal_with_fuel(run_events, 4);
    let start_evs: Seq<EventV> = seq![EventV::Start(e.name, e.attrs)];
    let content_evs: Seq<EventV> = match e.content {
        Some(t) => seq![EventV::Text(t)],
        None => Seq::empty(),
    };
    let end_evs: Seq<EventV> = seq![EventV::End(e.name)];
    assert(emit(e) == start_evs + content_evs + emit_seq(e.children) + end_evs);
    lemma_run_concat(start_evs + content_evs + emit_seq(e.children), end_evs, m);
    lemma_run_concat(start_evs + content_evs, emit_seq(e.children), m);
    lemma_run_concat(start_evs, content_evs, m);

    // after the start tag: a fresh open builder
    let m1 = run_events(start_evs, m);
    assert(start_evs.drop_first() =~= Seq::<EventV>::empty());
    assert(start_evs[0] == EventV::Start(e.name, e.attrs));
    assert(m1 == run_events(start_evs.drop_first(), machine_step(m, start_evs[0])));
    assert(m1 == machine_step(m, EventV::Start(e.name, e.attrs)));
    let fresh = PartialV { name: e.name, attrs: e.attrs, content: None, children: Seq::empty() };
    assert(m1 == (MachineV { stack: m.stack.push(fresh), out: m.out, err: m.err }));

    // after the content: the builder holds the element's text
    let m2 = run_events(content_evs, m1);
    let loaded = PartialV {
        name: e.name,
        attrs: e.attrs,
        content: e.content,
        children: Seq::empty(),
    };
    match e.content {
        Some(t) => {
            assert(content_evs.drop_first() =~= Seq::<EventV>::empty());
            assert(content_evs[0] == EventV::Text(t));
            assert(m2 == run_events(content_evs.drop_first(), machine_step(m1, content_evs[0])));
            assert(m2 == machine_step(m1, EventV::Text(t)));
            assert(m1.stack.last() == fresh);
            assert(machine_step(m1, EventV::Text(t)).stack =~= m.stack.push(fresh).update(
                m.stack.len() as int,
                loaded,
            ));
            assert(m.stack.push(fresh).update(m.stack.len() as int, loaded) =~= m.stack.push(
                loaded,
            ));
            assert(m2 =~~= (MachineV { stack: m.stack.push(loaded), out: m.out, err: m.err }));
        },
        None => {
            assert(m2 == m1);
            assert(m.stack.push(fresh) =~= m.stack.push(loaded));
        },
    }
    assert(m2 == (MachineV { stack: m.stack.push(loaded), out: m.out, err: m.err }));

    // after the children: the builder holds them all
    let m3 = run_events(emit_seq(e.children), m2);
    lemma_run_emit_seq(e.children, m2);
    let full = PartialV {
        name: e.name,
        attrs: e.attrs,
        content: e.content,
        children: e.children,
    };
    assert(m2.stack.last() == loaded);
    assert(m2.stack.update(m2.stack.len() - 1, PartialV {
        name: loaded.name,
        attrs: loaded.attrs,
        content: loaded.content,
        children: loaded.children + e.children,
    }) =~= m.stack.push(full));
    assert(Seq::<ElementV>::empty() + e.children =~= e.children);
    assert(m3 =~~= (MachineV { stack: m.stack.push(full), out: None, err: None }));

    // the end tag closes the builder into exactly `e`
    let m4 = run_events(end_evs, m3);
    assert(end_evs.drop_first() =~= Seq::<EventV>::empty());
    assert(end_evs[0] == EventV::End(e.name));
    assert(m4 == run_events(end_evs.drop_first(), machine_step(m3, end_evs[0])));
    assert(m4 == machine_step(m3, EventV::End(e.name)));
    assert(m3.stack[m3.stack.len() - 1] == full);
    assert(m3.stack.last() == full);
    assert(crate::parse::finish_partial(full) =~~= e);
    assert(m3.stack.drop_last() =~= m.stack);
    if m.stack.len() == 0 {
        assert(m4 =~~= (MachineV { stack: m.stack, out: Some(e), err: None }));
    } else {
        assert(m4.stack =~= m.stack.update(
            m.stack.len() - 1,
            PartialV {
                name: m.stack.last().name,
                attrs: m.stack.last().attrs,
                content: m.stack.last().content,
                children: m.stack.last().children.push(e),
            },
        ));
        assert(m4 =~~= (MachineV {
            stack: m.stack.update(
                m.stack.len() - 1,
                PartialV {
                    name: m.stack.last().name,
                    attrs: m.stack.last().attrs,
                    content: m.stack.last().content,
                    children: m.stack.last().children.push(e),
                },
            ),
            out: None,
            err: None,
        }));
    }
}

/// Feeding a child list's events extends the open builder by exactly
/// those children, in order.
pub proof fn lemma_run_emit_seq(s: Seq<ElementV>, m: MachineV)
    requires
        !machine_done(m),
        m.stack.len() > 0,
    ensures
        run_events(emit_seq(s), m) == (MachineV {
            stack: m.stack.update(
                m.stack.len() - 1,
                PartialV {
                    name: m.stack.last().name,
                    attrs: m.stack.last().attrs,
                    content: m.stack.last().content,
                    children: m.stack.last().children + s,
                },
            ),
            out: None,
            err: None,
        }),
    decreases s,
{
    let top = m.stack.last();
    if s.len() == 0 {
        assert(run_events(emit_seq(s), m) == m);
        assert(top.children + s =~= top.children);
        assert(m.stack.update(m.stack.len() - 1, PartialV {
            name: top.name,
            attrs: top.attrs,
            content: top.content,
            children: top.children + s,
        }) =~= m.stack);
    } else {
        assert(emit_seq(s) == emit(s[0]) + emit_seq(s.drop_first()));
        lemma_run_concat(emit(s[0]), emit_seq(s.drop_first()), m);
        lemma_run_emit(s[0], m);
        let m1 = run_events(emit(s[0]), m);
        assert(m1.stack == m.stack.update(
            m.stack.len() - 1,
            PartialV {
                name: top.name,
                attrs: top.attrs,
                content: top.content,
                children: top.children.push(s[0]),
            },
        ));
        assert(m1.stack.len() == m.stack.len());
        assert(m1.stack[m.stack.len() - 1] == (PartialV {
            name: top.name,
            attrs: top.attrs,
            content: top.content,
            children: top.children.push(s[0]),
        }));
        assert(m1.stack.last() == (PartialV {
            name: top.name,
            attrs: top.attrs,
            content: top.content,
            children: top.children.push(s[0]),
        }));
        lemma_run_emit_seq(s.drop_first(), m1);
        assert(top.children.push(s[0]) + s.drop_first() =~= top.children + s);
        assert(m1.stack.update(m1.stack.len() - 1, PartialV {
            name: top.name,
            attrs: top.attrs,
            content: top.content,
            children: top.children.push(s[0]) + s.drop_first(),
        }) =~= m.stack.update(m.stack.len() - 1, PartialV {
            name: top.name,
            attrs: top.attrs,
            content: top.content,
            children: top.children + s,
        }));
        assert(run_events(emit_seq(s), m) =~~= (MachineV {
            stack: m.stack.update(
                m.stack.len() - 1,
                PartialV {
                    name: top.name,
                    attrs: top.attrs,
                    content: top.content,
                    children: top.children + s,
                },
            ),
            out: None,
            err: None,
        }));
    }
}

/// The event stream an element emits parses back to that element.
pub proof fn lemma_parse_of_emit(e: ElementV)
    ensures
        spec_parse_events(emit(e).push(EventV::Eof)) == Ok::<
            ElementV,
            crate::views::KmlErrorV,
        >(e),
{
    let evs = emit(e).push(EventV::Eof);
    assert(evs =~= emit(e) + seq![EventV::Eof]);
    lemma_run_events_eq(evs, 0, machine_init());
    assert(evs.skip(0) =~= evs);
    lemma_run_concat(emit(e), seq![EventV::Eof], machine_init());
    lemma_run_emit(e, machine_init());
    let m = run_events(emit(e), machine_init());
    assert(m.out == Some(e));
    lemma_run_events_done(seq![EventV::Eof], m);
}

// -------------------------------------------------------------------
// Coordinate text inverts: what the encoder joins, the decoder splits
// back to the same coordinates.
// -------------------------------------------------------------------

/// A number's characters are signs, digits and one dot: never
/// whitespace, never a comma.
pub proof fn lemma_number_chars(t: Seq<char>)
    requires
        valid_number(t),
    ensures
        t.len() > 0,
        forall|i: int| 0 <= i < t.len() ==> !is_space(#[trigger] t[i]) && t[i] != ',',
{
    let body = number_body(t);
    let k = choose|k: int| valid_body_at(body, k);
    let off: int = if t.len() > 0 && (t[0] == '+' || t[0] == '-') {
        1
    } else {
        0
    };
    assert(body =~= t.skip(off));
    assert forall|i: int| 0 <= i < t.len() implies !is_space(#[trigger] t[i]) && t[i]
        != ',' by {
        if i >= off {
            assert(body[i - off] == t[i]);
            if i - off < k {
                assert(is_digit(body[i - off]));
            } else if i - off == k && k < body.len() {
                assert(body[k] == '.');
            } else if i - off > k {
                assert(is_digit(body[i - off]));
            }
        }
    }
}

/// A coordinate's text is nonempty and free of whitespace.
pub proof fn lemma_coord_text_chars(c: CoordV)
    requires
        coord_wf(c),
    ensures
        coord_text(c).len() > 0,
        forall|i: int| 0 <= i < coord_text(c).len() ==> !is_space(#[trigger] coord_text(c)[i]),
{
    lemma_number_chars(c.x);
    lemma_number_chars(c.y);
    if c.z is Some {
        lemma_number_chars(c.z->0);
    }
}

/// A well-formed coordinate: every scalar satisfies the grammar.
pub open spec fn coord_wf(c: CoordV) -> bool {
    &&& valid_number(c.x)
    &&& valid_number(c.y)
    &&& (c.z is Some ==> valid_number(c.z->0))
}

/// A well-formed coordinate list.
pub open spec fn coords_wf(cs: Seq<CoordV>) -> bool {
    forall|i: int| 0 <= i < cs.len() ==> coord_wf(#[trigger] cs[i])
}

/// Splitting one coordinate's text on commas gives back its fields.
pub proof fn lemma_split_coord_text(c: CoordV)
    requires
        coord_wf(c),
    ensures
        split_fields(coord_text(c)) == (match c.z {
            Some(z) => seq![c.x, c.y, z],
            None => seq![c.x, c.y],
        }),
{
    lemma_number_chars(c.x);
    lemma_number_chars(c.y);
    let t = coord_text(c);
    assert forall|i: int| 0 <= i < c.x.len() implies (#[trigger] t[i]) != ',' by {
        assert(t[i] == c.x[i]);
    }
    assert(t[c.x.len() as int] == ',');
    lemma_field_len_at(t, c.x.len() as int);
    let rest = t.skip(c.x.len() + 1int);
    match c.z {
        None => {
            assert(rest =~= c.y);
            lemma_field_len_at(rest, rest.len() as int);
            assert(split_fields(rest) == seq![rest]);
            assert(t.take(field_len(t)) =~= c.x);
            assert(split_fields(t) =~= seq![c.x, c.y]);
        },
        Some(z) => {
            lemma_number_chars(z);
            assert(rest =~= c.y + seq![','] + z);
            assert forall|i: int| 0 <= i < c.y.len() implies (#[trigger] rest[i]) != ',' by {
                assert(rest[i] == c.y[i]);
            }
            assert(rest[c.y.len() as int] == ',');
            lemma_field_len_at(rest, c.y.len() as int);
            let rest2 = rest.skip(c.y.len() + 1int);
            assert(rest2 =~= z);
            lemma_field_len_at(rest2, rest2.len() as int);
            assert(split_fields(rest2) == seq![rest2]);
            assert(rest.take(field_len(rest)) =~= c.y);
            assert(split_fields(rest) =~= seq![c.y, z]);
            assert(t.take(field_len(t)) =~= c.x);
            assert(split_fields(t) =~= seq![c.x, c.y, z]);
        },
    }
}

/// One coordinate's text parses back to it.
pub proof fn lemma_parse_coord_text(c: CoordV)
    requires
        coord_wf(c),
    ensures
        spec_parse_coord(coord_text(c)) == Ok::<CoordV, crate::views::KmlErrorV>(c),
{
    lemma_split_coord_text(c);
    match c.z {
        None => {
            assert(spec_parse_coord(coord_text(c)) == Ok::<CoordV, crate::views::KmlErrorV>(
                CoordV { x: c.x, y: c.y, z: None },
            ));
            assert(CoordV { x: c.x, y: c.y, z: None } =~~= c);
        },
        Some(z) => {
            assert(spec_parse_coord(coord_text(c)) == Ok::<CoordV, crate::views::KmlErrorV>(
                CoordV { x: c.x, y: c.y, z: Some(z) },
            ));
            assert(CoordV { x: c.x, y: c.y, z: Some(z) } =~~= c);
        },
    }
}

/// A coordinate list's text parses back to it.
pub proof fn lemma_parse_coords_text(cs: Seq<CoordV>)
    requires
        coords_wf(cs),
    ensures
        spec_parse_coords(coords_text(cs)) == Ok::<Seq<CoordV>, crate::views::KmlErrorV>(cs),
    decreases cs.len(),
{
    reveal_with_fuel(parse_coord_list, 3);
    if cs.len() == 0 {
        assert(coords_text(cs) == Seq::<char>::empty());
        assert(spec_tokens(Seq::<char>::empty()) == Seq::<Seq<char>>::empty());
        assert(parse_coord_list(Seq::<Seq<char>>::empty()) == Ok::<
            Seq<CoordV>,
            crate::views::KmlErrorV,
        >(Seq::empty()));
        assert(cs =~= Seq::<CoordV>::empty());
    } else if cs.len() == 1 {
        let t = coord_text(cs[0]);
        lemma_coord_text_chars(cs[0]);
        lemma_token_len_at(t, t.len() as int);
        assert(t.take(crate::txt::token_len(t)) =~= t);
        assert(t.skip(crate::txt::token_len(t)) =~= Seq::<char>::empty());
        assert(spec_tokens(t) =~= seq![t] + spec_tokens(Seq::<char>::empty()));
        assert(spec_tokens(t) =~= seq![t]);
        lemma_parse_coord_text(cs[0]);
        assert(seq![t].drop_first() =~= Seq::<Seq<char>>::empty());
        assert(parse_coord_list(seq![t]) == Ok::<Seq<CoordV>, crate::views::KmlErrorV>(
            seq![cs[0]] + Seq::<CoordV>::empty(),
        ));
        assert(seq![cs[0]] + Seq::<CoordV>::empty() =~= cs);
    } else {
        let t = coord_text(cs[0]);
        let rest_text = coords_text(cs.drop_first());
        assert(coords_text(cs) == t + seq!['\n'] + rest_text);
        lemma_coord_text_chars(cs[0]);
        let whole = coords_text(cs);
        assert forall|i: int| 0 <= i < t.len() implies !is_space(#[trigger] whole[i]) by {
            assert(whole[i] == t[i]);
        }
        assert(whole[t.len() as int] == '\n');
        lemma_token_len_at(whole, t.len() as int);
        assert(whole.take(crate::txt::token_len(whole)) =~= t);
        let after = whole.skip(t.len() as int);
        assert(after[0] == '\n');
        assert(after.drop_first() =~= rest_text);
        assert(whole[0] == t[0]);
        assert(!is_space(whole[0]));
        assert(is_space(after[0]));
        assert(spec_tokens(after) == spec_tokens(after.drop_first()));
        assert(spec_tokens(whole) == seq![whole.take(crate::txt::token_len(whole))]
            + spec_tokens(after));
        assert(seq![whole.take(crate::txt::token_len(whole))] =~= seq![t]);
        assert(spec_tokens(whole) == seq![t] + spec_tokens(rest_text));
        assert(coords_wf(cs.drop_first()));
        lemma_parse_coords_text(cs.drop_first());
        lemma_parse_coord_text(cs[0]);
        assert((seq![t] + spec_tokens(rest_text))[0] == t);
        assert((seq![t] + spec_tokens(rest_text)).drop_first() =~= spec_tokens(rest_text));
        assert(parse_coord_list(spec_tokens(whole)) == Ok::<
            Seq<CoordV>,
            crate::views::KmlErrorV,
        >(seq![cs[0]] + cs.drop_first()));
        assert(seq![cs[0]] + cs.drop_first() =~= cs);
    }
}

// -------------------------------------------------------------------
// The decoder inverts the encoder, schema side.
// -------------------------------------------------------------------

/// No child carries the name: the scan finds nothing.
pub proof fn lemma_first_child_none(s: Seq<ElementV>, nm: Seq<char>)
    requires
        forall|i: int| 0 <= i < s.len() ==> (#[trigger] s[i]).name != nm,
    ensures
        first_child(s, nm) is None,
    decreases s.len(),
{
    if s.len() > 0 {
        lemma_first_child_none(s.drop_first(), nm);
    }
}

/// Scanning a concatenation scans the parts in order.
pub proof fn lemma_first_child_append(a: Seq<ElementV>, b: Seq<ElementV>, nm: Seq<char>)
    ensures
        first_child(a + b, nm) == (if first_child(a, nm) is Some {
            first_child(a, nm)
        } else {
            first_child(b, nm)
        }),
    decreases a.len(),
{
    if a.len() == 0 {
        assert(a + b =~= b);
    } else {
        assert((a + b)[0] == a[0]);
        assert((a + b).drop_first() =~= a.drop_first() + b);
        lemma_first_child_append(a.drop_first(), b, nm);
    }
}

/// Scanning past a leading segment that cannot hold the sought name.
pub proof fn lemma_scan_skip(a: Seq<ElementV>, b: Seq<ElementV>, nm: Seq<char>)
    requires
        forall|i: int| 0 <= i < a.len() ==> (#[trigger] a[i]).name != nm,
    ensures
        first_child(a + b, nm) == first_child(b, nm),
{
    lemma_first_child_append(a, b, nm);
    lemma_first_child_none(a, nm);
}

/// Scanning a segment that opens with the sought name.
pub proof fn lemma_scan_hit(a: Seq<ElementV>, b: Seq<ElementV>, nm: Seq<char>)
    requires
        a.len() > 0,
        a[0].name == nm,
    ensures
        first_child(a + b, nm) == Some(a[0]),
{
    lemma_first_child_append(a, b, nm);
}

/// Whether a tag is one the placemark decoder claims for itself.
pub open spec fn reserved_child(n: Seq<char>) -> bool {
    n == "name"@ || n == "description"@ || is_geom_name(n)
}

/// Keeping distributes over concatenation.
pub proof fn lemma_keep_append(a: Seq<ElementV>, b: Seq<ElementV>)
    ensures
        keep_children(a + b) == keep_children(a) + keep_children(b),
    decreases a.len(),
{
    if a.len() == 0 {
        assert(a + b =~= b);
        assert(keep_children(a) + keep_children(b) =~= keep_children(b));
    } else {
        assert((a + b)[0] == a[0]);
        assert((a + b).drop_first() =~= a.drop_first() + b);
        lemma_keep_append(a.drop_first(), b);
        if !reserved_child(a[0].name) {
            assert(seq![a[0]] + (keep_children(a.drop_first()) + keep_children(b)) =~= (seq![
                a[0],
            ] + keep_children(a.drop_first())) + keep_children(b));
        }
    }
}

/// Unreserved children are kept verbatim.
pub proof fn lemma_keep_all(s: Seq<ElementV>)
    requires
        forall|i: int| 0 <= i < s.len() ==> !reserved_child((#[trigger] s[i]).name),
    ensures
        keep_children(s) == s,
    decreases s.len(),
{
    if s.len() > 0 {
        lemma_keep_all(s.drop_first());
        assert(seq![s[0]] + s.drop_first() =~= s);
    }
}

/// Reserved children are all dropped.
pub proof fn lemma_keep_none(s: Seq<ElementV>)
    requires
        forall|i: int| 0 <= i < s.len() ==> reserved_child((#[trigger] s[i]).name),
    ensures
        keep_children(s) == Seq::<ElementV>::empty(),
    decreases s.len(),
{
    if s.len() > 0 {
        lemma_keep_none(s.drop_first());
    }
}

/// The scan for the first geometry stops exactly at `m`.
pub proof fn lemma_first_geom_at(s: Seq<ElementV>, i: int, m: int)
    requires
        0 <= i <= m < s.len(),
        forall|q: int| i <= q < m ==> !is_geom_name((#[trigger] s[q]).name),
        is_geom_name(s[m].name),
    ensures
        first_geom_idx(s, i) == m,
    decreases m - i,
{
    if i < m {
        lemma_first_geom_at(s, i + 1, m);
    }
}

/// No geometry child: the scan reports none.
pub proof fn lemma_first_geom_none(s: Seq<ElementV>, i: int)
    requires
        0 <= i <= s.len(),
        forall|q: int| i <= q < s.len() ==> !is_geom_name((#[trigger] s[q]).name),
    ensures
        first_geom_idx(s, i) == -1,
    decreases s.len() - i,
{
    if i < s.len() {
        lemma_first_geom_none(s, i + 1);
    }
}

/// Scanning a single child.
pub proof fn lemma_first_child_one(e: ElementV, nm: Seq<char>)
    ensures
        first_child(seq![e], nm) == (if e.name == nm {
            Some(e)
        } else {
            None::<ElementV>
        }),
{
    assert(seq![e].drop_first() =~= Seq::<ElementV>::empty());
    if e.name == nm {
        assert(first_child(seq![e], nm) == Some(seq![e][0]));
    } else {
        assert(first_child(seq![e], nm) == first_child(seq![e].drop_first(), nm));
    }
}

/// The boolean texts are the two digits, and they differ.
pub proof fn lemma_bool_text_inverts(b: bool)
    ensures
        (bool_text(b) == "1"@) == b,
{
    reveal_strlit("0");
    reveal_strlit("1");
    assert("0"@.len() == 1 && "1"@.len() == 1);
    assert("0"@[0] == '0' && "1"@[0] == '1');
    assert("0"@ != "1"@);
}

/// The altitude-mode text round-trips.
pub proof fn lemma_rt_am(am: crate::model::AltitudeMode)
    ensures
        crate::decode::am_of_text(crate::txt::altitude_mode_text(am)) == Some(am),
{
    reveal_strlit("clampToGround");
    reveal_strlit("relativeToGround");
    reveal_strlit("absolute");
    assert("clampToGround"@.len() == 13);
    assert("relativeToGround"@.len() == 16);
    assert("absolute"@.len() == 8);
}

/// The shared geometry properties round-trip.
pub proof fn lemma_rt_geom_props(
    ex: bool,
    tess: bool,
    am: crate::model::AltitudeMode,
    coords: Seq<CoordV>,
)
    requires
        coords_wf(coords),
    ensures
        am_field(crate::encode::geom_props_children(ex, Some(tess), am, coords)) == Ok::<
            _,
            crate::views::KmlErrorV,
        >(am),
        bool_field(crate::encode::geom_props_children(ex, Some(tess), am, coords), "extrude"@,
            false) == ex,
        bool_field(crate::encode::geom_props_children(ex, Some(tess), am, coords),
            "tessellate"@, false) == tess,
        coords_field(crate::encode::geom_props_children(ex, Some(tess), am, coords)) == Ok::<
            _,
            crate::views::KmlErrorV,
        >(coords),
{
    reveal_with_fuel(first_child, 6);
    reveal_strlit("extrude");
    reveal_strlit("tessellate");
    reveal_strlit("altitudeMode");
    reveal_strlit("coordinates");
    reveal_strlit("0");
    reveal_strlit("1");
    assert("extrude"@.len() == 7 && "tessellate"@.len() == 10 && "altitudeMode"@.len() == 12
        && "coordinates"@.len() == 11);
    let ex_el = crate::encode::text_el("extrude"@, bool_text(ex));
    let tess_el = crate::encode::text_el("tessellate"@, bool_text(tess));
    let am_el = crate::encode::text_el("altitudeMode"@, crate::txt::altitude_mode_text(am));
    let tail: Seq<ElementV> = if coords.len() == 0 {
        Seq::empty()
    } else {
        seq![crate::encode::text_el("coordinates"@, coords_text(coords))]
    };
    let ch = crate::encode::geom_props_children(ex, Some(tess), am, coords);
    assert(ch =~= seq![ex_el] + (seq![tess_el] + (seq![am_el] + tail)));
    lemma_first_child_append(seq![ex_el], seq![tess_el] + (seq![am_el] + tail), "extrude"@);
    lemma_first_child_one(ex_el, "extrude"@);
    assert(first_child(ch, "extrude"@) is Some);
    assert(first_child(ch, "extrude"@)->0 =~= ex_el);
    lemma_bool_text_inverts(ex);
    lemma_bool_text_inverts(tess);

    lemma_first_child_append(seq![ex_el], seq![tess_el] + (seq![am_el] + tail), "tessellate"@);
    lemma_first_child_append(seq![tess_el], seq![am_el] + tail, "tessellate"@);
    lemma_first_child_one(ex_el, "tessellate"@);
    lemma_first_child_one(tess_el, "tessellate"@);
    assert(first_child(ch, "tessellate"@) is Some);
    assert(first_child(ch, "tessellate"@)->0 =~= tess_el);

    lemma_first_child_append(seq![ex_el], seq![tess_el] + (seq![am_el] + tail), "altitudeMode"@);
    lemma_first_child_append(seq![tess_el], seq![am_el] + tail, "altitudeMode"@);
    lemma_first_child_append(seq![am_el], tail, "altitudeMode"@);
    lemma_first_child_one(ex_el, "altitudeMode"@);
    lemma_first_child_one(tess_el, "altitudeMode"@);
    lemma_first_child_one(am_el, "altitudeMode"@);
    assert(first_child(ch, "altitudeMode"@) is Some);
    assert(first_child(ch, "altitudeMode"@)->0 =~= am_el);
    lemma_rt_am(am);

    lemma_first_child_append(seq![ex_el], seq![tess_el] + (seq![am_el] + tail), "coordinates"@);
    lemma_first_child_append(seq![tess_el], seq![am_el] + tail, "coordinates"@);
    lemma_first_child_append(seq![am_el], tail, "coordinates"@);
    lemma_first_child_one(ex_el, "coordinates"@);
    lemma_first_child_one(tess_el, "coordinates"@);
    lemma_first_child_one(am_el, "coordinates"@);
    if coords.len() == 0 {
        assert(first_child(tail, "coordinates"@) is None);
        assert(coords_field(ch) == Ok::<_, crate::views::KmlErrorV>(Seq::<CoordV>::empty()));
        assert(coords =~= Seq::<CoordV>::empty());
    } else {
        lemma_first_child_one(tail[0], "coordinates"@);
        assert(tail =~= seq![tail[0]]);
        assert(first_child(ch, "coordinates"@) is Some);
    assert(first_child(ch, "coordinates"@)->0 =~= tail[0]);
        lemma_parse_coords_text(coords);
    }
}

/// A lowered linear ring decodes back to itself.
pub proof fn lemma_rt_ring(r: LinearRingV)
    requires
        coords_wf(r.coords),
    ensures
        interpret_ring(crate::encode::lower_linear_ring_v(r)) == Ok::<
            _,
            crate::views::KmlErrorV,
        >(r),
{
    lemma_rt_geom_props(r.extrude, r.tessellate, r.altitude_mode, r.coords);
    let e = crate::encode::lower_linear_ring_v(r);
    assert(interpret_ring(e)->Ok_0 =~~= r);
}

/// A lowered line string decodes back to itself.
pub proof fn lemma_rt_line_string(l: LineStringV)
    requires
        coords_wf(l.coords),
    ensures
        crate::decode::interpret_line_string(crate::encode::lower_line_string_v(l)) == Ok::<
            _,
            crate::views::KmlErrorV,
        >(l),
{
    lemma_rt_geom_props(l.extrude, l.tessellate, l.altitude_mode, l.coords);
    let e = crate::encode::lower_line_string_v(l);
    assert(crate::decode::interpret_line_string(e)->Ok_0 =~~= l);
}

/// A lowered point decodes back to itself.
pub proof fn lemma_rt_point(p: PointV)
    requires
        coord_wf(p.coord),
    ensures
        crate::decode::interpret_point(crate::encode::lower_point_v(p)) == Ok::<
            _,
            crate::views::KmlErrorV,
        >(p),
{
    reveal_with_fuel(first_child, 5);
    reveal_strlit("extrude");
    reveal_strlit("altitudeMode");
    reveal_strlit("coordinates");
    reveal_strlit("0");
    reveal_strlit("1");
    assert("extrude"@.len() == 7 && "altitudeMode"@.len() == 12 && "coordinates"@.len() == 11);
    let ex_el = crate::encode::text_el("extrude"@, bool_text(p.extrude));
    let am_el = crate::encode::text_el(
        "altitudeMode"@,
        crate::txt::altitude_mode_text(p.altitude_mode),
    );
    let co_el = crate::encode::text_el("coordinates"@, coord_text(p.coord));
    let ch = crate::encode::lower_point_v(p).children;
    assert(ch =~= seq![ex_el] + (seq![am_el] + seq![co_el]));
    lemma_first_child_append(seq![ex_el], seq![am_el] + seq![co_el], "extrude"@);
    lemma_first_child_one(ex_el, "extrude"@);
    assert(first_child(ch, "extrude"@) is Some);
    assert(first_child(ch, "extrude"@)->0 =~= ex_el);
    lemma_bool_text_inverts(p.extrude);
    lemma_first_child_append(seq![ex_el], seq![am_el] + seq![co_el], "altitudeMode"@);
    lemma_first_child_append(seq![am_el], seq![co_el], "altitudeMode"@);
    lemma_first_child_one(ex_el, "altitudeMode"@);
    lemma_first_child_one(am_el, "altitudeMode"@);
    assert(first_child(ch, "altitudeMode"@) is Some);
    assert(first_child(ch, "altitudeMode"@)->0 =~= am_el);
    lemma_rt_am(p.altitude_mode);
    lemma_first_child_append(seq![ex_el], seq![am_el] + seq![co_el], "coordinates"@);
    lemma_first_child_append(seq![am_el], seq![co_el], "coordinates"@);
    lemma_first_child_one(ex_el, "coordinates"@);
    lemma_first_child_one(am_el, "coordinates"@);
    lemma_first_child_one(co_el, "coordinates"@);
    assert(first_child(ch, "coordinates"@) is Some);
    assert(first_child(ch, "coordinates"@)->0 =~= co_el);
    assert(coords_text(seq![p.coord]) == coord_text(p.coord));
    assert(coords_wf(seq![p.coord]));
    lemma_parse_coords_text(seq![p.coord]);
    assert(coords_field(ch) == Ok::<_, crate::views::KmlErrorV>(seq![p.coord]));
    assert(crate::decode::interpret_point(crate::encode::lower_point_v(p))->Ok_0 =~~= p);
}

/// A lowered scale decodes back to itself.
pub proof fn lemma_rt_scale(v: crate::views::ScaleV)
    requires
        valid_number(v.x),
        valid_number(v.y),
        valid_number(v.z),
    ensures
        crate::decode::interpret_scale(lower_scale_v(v)) == Ok::<_, crate::views::KmlErrorV>(v),
{
    reveal_with_fuel(first_child, 5);
    reveal_strlit("x");
    reveal_strlit("y");
    reveal_strlit("z");
    let xe = crate::encode::text_el("x"@, v.x);
    let ye = crate::encode::text_el("y"@, v.y);
    let ze = crate::encode::text_el("z"@, v.z);
    let ch = lower_scale_v(v).children;
    assert(ch =~= seq![xe] + (seq![ye] + seq![ze]));
    lemma_first_child_append(seq![xe], seq![ye] + seq![ze], "x"@);
    lemma_first_child_append(seq![xe], seq![ye] + seq![ze], "y"@);
    lemma_first_child_append(seq![ye], seq![ze], "y"@);
    lemma_first_child_append(seq![xe], seq![ye] + seq![ze], "z"@);
    lemma_first_child_append(seq![ye], seq![ze], "z"@);
    lemma_first_child_one(xe, "x"@);
    lemma_first_child_one(xe, "y"@);
    lemma_first_child_one(xe, "z"@);
    lemma_first_child_one(ye, "y"@);
    lemma_first_child_one(ye, "z"@);
    lemma_first_child_one(ze, "z"@);
    assert("x"@[0] == 'x' && "y"@[0] == 'y' && "z"@[0] == 'z');
    assert("x"@ != "y"@ && "x"@ != "z"@ && "y"@ != "z"@);
    assert(first_child(ch, "x"@) is Some);
    assert(first_child(ch, "x"@)->0 =~= xe);
    assert(first_child(ch, "y"@) is Some);
    assert(first_child(ch, "y"@)->0 =~= ye);
    assert(first_child(ch, "z"@) is Some);
    assert(first_child(ch, "z"@)->0 =~= ze);
    assert(crate::decode::interpret_scale(lower_scale_v(v))->Ok_0 =~~= v);
}

/// A lowered orientation decodes back to itself.
pub proof fn lemma_rt_orientation(v: crate::views::OrientationV)
    requires
        valid_number(v.roll),
        valid_number(v.tilt),
        valid_number(v.heading),
    ensures
        crate::decode::interpret_orientation(lower_orientation_v(v)) == Ok::<
            _,
            crate::views::KmlErrorV,
        >(v),
{
    reveal_with_fuel(first_child, 5);
    reveal_strlit("roll");
    reveal_strlit("tilt");
    reveal_strlit("heading");
    assert("roll"@.len() == 4 && "tilt"@.len() == 4 && "heading"@.len() == 7);
    assert("roll"@[0] == 'r' && "tilt"@[0] == 't');
    let xe = crate::encode::text_el("roll"@, v.roll);
    let ye = crate::encode::text_el("tilt"@, v.tilt);
    let ze = crate::encode::text_el("heading"@, v.heading);
    let ch = lower_orientation_v(v).children;
    assert(ch =~= seq![xe] + (seq![ye] + seq![ze]));
    lemma_first_child_append(seq![xe], seq![ye] + seq![ze], "roll"@);
    lemma_first_child_append(seq![xe], seq![ye] + seq![ze], "tilt"@);
    lemma_first_child_append(seq![ye], seq![ze], "tilt"@);
    lemma_first_child_append(seq![xe], seq![ye] + seq![ze], "heading"@);
    lemma_first_child_append(seq![ye], seq![ze], "heading"@);
    lemma_first_child_one(xe, "roll"@);
    lemma_first_child_one(xe, "tilt"@);
    lemma_first_child_one(xe, "heading"@);
    lemma_first_child_one(ye, "tilt"@);
    lemma_first_child_one(ye, "heading"@);
    lemma_first_child_one(ze, "heading"@);
    assert(first_child(ch, "roll"@) is Some);
    assert(first_child(ch, "roll"@)->0 =~= xe);
    assert(first_child(ch, "tilt"@) is Some);
    assert(first_child(ch, "tilt"@)->0 =~= ye);
    assert(first_child(ch, "heading"@) is Some);
    assert(first_child(ch, "heading"@)->0 =~= ze);
    assert(crate::decode::interpret_orientation(lower_orientation_v(v))->Ok_0 =~~= v);
}

/// A lowered location decodes back to itself.
pub proof fn lemma_rt_location(v: crate::views::LocationV)
    requires
        valid_number(v.longitude),
        valid_number(v.latitude),
        valid_number(v.altitude),
    ensures
        crate::decode::interpret_location(lower_location_v(v)) == Ok::<
            _,
            crate::views::KmlErrorV,
        >(v),
{
    reveal_with_fuel(first_child, 5);
    reveal_strlit("longitude");
    reveal_strlit("latitude");
    reveal_strlit("altitude");
    assert("longitude"@.len() == 9 && "latitude"@.len() == 8 && "altitude"@.len() == 8);
    assert("latitude"@[0] == 'l' && "altitude"@[0] == 'a');
    let xe = crate::encode::text_el("longitude"@, v.longitude);
    let ye = crate::encode::text_el("latitude"@, v.latitude);
    let ze = crate::encode::text_el("altitude"@, v.altitude);
    let ch = lower_location_v(v).children;
    assert(ch =~= seq![xe] + (seq![ye] + seq![ze]));
    lemma_first_child_append(seq![xe], seq![ye] + seq![ze], "longitude"@);
    lemma_first_child_append(seq![xe], seq![ye] + seq![ze], "latitude"@);
    lemma_first_child_append(seq![ye], seq![ze], "latitude"@);
    lemma_first_child_append(seq![xe], seq![ye] + seq![ze], "altitude"@);
    lemma_first_child_append(seq![ye], seq![ze], "altitude"@);
    lemma_first_child_one(xe, "longitude"@);
    lemma_first_child_one(xe, "latitude"@);
    lemma_first_child_one(xe, "altitude"@);
    lemma_first_child_one(ye, "latitude"@);
    lemma_first_child_one(ye, "altitude"@);
    lemma_first_child_one(ze, "altitude"@);
    assert(first_child(ch, "longitude"@) is Some);
    assert(first_child(ch, "longitude"@)->0 =~= xe);
    assert(first_child(ch, "latitude"@) is Some);
    assert(first_child(ch, "latitude"@)->0 =~= ye);
    assert(first_child(ch, "altitude"@) is Some);
    assert(first_child(ch, "altitude"@)->0 =~= ze);
    assert(crate::decode::interpret_location(lower_location_v(v))->Ok_0 =~~= v);
}

/// A lowered polygon decodes back to itself.
#[verifier::rlimit(60)]
pub proof fn lemma_rt_polygon(p: PolygonV)
    requires
        coords_wf(p.outer.coords),
        forall|i: int| 0 <= i < p.inner.len() ==> coords_wf((#[trigger] p.inner[i]).coords),
    ensures
        crate::decode::interpret_polygon(crate::encode::lower_polygon_v(p)) == Ok::<
            _,
            crate::views::KmlErrorV,
        >(p),
{
    reveal_strlit("extrude");
    reveal_strlit("tessellate");
    reveal_strlit("altitudeMode");
    reveal_strlit("coordinates");
    reveal_strlit("outerBoundaryIs");
    reveal_strlit("innerBoundaryIs");
    reveal_strlit("LinearRing");
    reveal_strlit("0");
    reveal_strlit("1");
    assert("extrude"@.len() == 7 && "tessellate"@.len() == 10 && "altitudeMode"@.len() == 12
        && "outerBoundaryIs"@.len() == 15 && "innerBoundaryIs"@.len() == 15
        && "LinearRing"@.len() == 10);
    assert("outerBoundaryIs"@[0] == 'o' && "innerBoundaryIs"@[0] == 'i');
    let ex_el = crate::encode::text_el("extrude"@, bool_text(p.extrude));
    let tess_el = crate::encode::text_el("tessellate"@, bool_text(p.tessellate));
    let am_el = crate::encode::text_el(
        "altitudeMode"@,
        crate::txt::altitude_mode_text(p.altitude_mode),
    );
    let outer_w = node_el(
        "outerBoundaryIs"@,
        Seq::empty(),
        seq![crate::encode::lower_linear_ring_v(p.outer)],
    );
    let tail: Seq<ElementV> = if p.inner.len() == 0 {
        Seq::empty()
    } else {
        seq![
            node_el(
                "innerBoundaryIs"@,
                Seq::empty(),
                p.inner.map_values(|r: LinearRingV| crate::encode::lower_linear_ring_v(r)),
            ),
        ]
    };
    let e = crate::encode::lower_polygon_v(p);
    let ch = e.children;
    assert(ch =~= seq![ex_el] + (seq![tess_el] + (seq![am_el] + (seq![outer_w] + tail))));
    let r1 = seq![tess_el] + (seq![am_el] + (seq![outer_w] + tail));
    let r2 = seq![am_el] + (seq![outer_w] + tail);
    let r3 = seq![outer_w] + tail;
    // each field scan
    lemma_first_child_append(seq![ex_el], r1, "extrude"@);
    lemma_first_child_one(ex_el, "extrude"@);
    assert(first_child(ch, "extrude"@) is Some);
    assert(first_child(ch, "extrude"@)->0 =~= ex_el);
    lemma_bool_text_inverts(p.extrude);
    lemma_bool_text_inverts(p.tessellate);
    lemma_first_child_append(seq![ex_el], r1, "tessellate"@);
    lemma_first_child_append(seq![tess_el], r2, "tessellate"@);
    lemma_first_child_one(ex_el, "tessellate"@);
    lemma_first_child_one(tess_el, "tessellate"@);
    assert(first_child(ch, "tessellate"@) is Some);
    assert(first_child(ch, "tessellate"@)->0 =~= tess_el);
    lemma_first_child_append(seq![ex_el], r1, "altitudeMode"@);
    lemma_first_child_append(seq![tess_el], r2, "altitudeMode"@);
    lemma_first_child_one(ex_el, "altitudeMode"@);
    lemma_first_child_one(tess_el, "altitudeMode"@);
    lemma_first_child_one(am_el, "altitudeMode"@);
    lemma_first_child_append(seq![am_el], r3, "altitudeMode"@);
    assert(first_child(ch, "altitudeMode"@) is Some);
    assert(first_child(ch, "altitudeMode"@)->0 =~= am_el);
    lemma_rt_am(p.altitude_mode);
    // the outer boundary
    lemma_first_child_append(seq![ex_el], r1, "outerBoundaryIs"@);
    lemma_first_child_append(seq![tess_el], r2, "outerBoundaryIs"@);
    lemma_first_child_append(seq![am_el], r3, "outerBoundaryIs"@);
    lemma_first_child_append(seq![outer_w], tail, "outerBoundaryIs"@);
    lemma_first_child_one(ex_el, "outerBoundaryIs"@);
    lemma_first_child_one(tess_el, "outerBoundaryIs"@);
    lemma_first_child_one(am_el, "outerBoundaryIs"@);
    lemma_first_child_one(outer_w, "outerBoundaryIs"@);
    assert(first_child(ch, "outerBoundaryIs"@) is Some);
    assert(first_child(ch, "outerBoundaryIs"@)->0 =~= outer_w);
    lemma_first_child_one(crate::encode::lower_linear_ring_v(p.outer), "LinearRing"@);
    assert(first_child(outer_w.children, "LinearRing"@) is Some);
    assert(first_child(outer_w.children, "LinearRing"@)->0 =~= crate::encode::lower_linear_ring_v(
        p.outer,
    ));
    lemma_rt_ring(p.outer);
    // the inner boundary
    lemma_first_child_append(seq![ex_el], r1, "innerBoundaryIs"@);
    lemma_first_child_append(seq![tess_el], r2, "innerBoundaryIs"@);
    lemma_first_child_append(seq![am_el], r3, "innerBoundaryIs"@);
    lemma_first_child_append(seq![outer_w], tail, "innerBoundaryIs"@);
    lemma_first_child_one(ex_el, "innerBoundaryIs"@);
    lemma_first_child_one(tess_el, "innerBoundaryIs"@);
    lemma_first_child_one(am_el, "innerBoundaryIs"@);
    lemma_first_child_one(outer_w, "innerBoundaryIs"@);
    if p.inner.len() == 0 {
        assert(first_child(ch, "innerBoundaryIs"@) is None);
        assert(p.inner =~= Seq::<LinearRingV>::empty());
    } else {
        lemma_first_child_one(tail[0], "innerBoundaryIs"@);
        assert(tail =~= seq![tail[0]]);
        assert(first_child(ch, "innerBoundaryIs"@) is Some);
        assert(first_child(ch, "innerBoundaryIs"@)->0 =~= tail[0]);
        lemma_rt_rings(p.inner);
    }
    assert(crate::decode::interpret_polygon(e) is Ok);
    assert(crate::decode::interpret_polygon(e)->Ok_0 =~~= p);
}

/// A list of lowered rings decodes back to the same list.
pub proof fn lemma_rt_rings(rs: Seq<LinearRingV>)
    requires
        forall|i: int| 0 <= i < rs.len() ==> coords_wf((#[trigger] rs[i]).coords),
    ensures
        rings_of(rs.map_values(|r: LinearRingV| crate::encode::lower_linear_ring_v(r))) == Ok::<
            _,
            crate::views::KmlErrorV,
        >(rs),
    decreases rs.len(),
{
    let lowered = rs.map_values(|r: LinearRingV| crate::encode::lower_linear_ring_v(r));
    if rs.len() == 0 {
        assert(lowered =~= Seq::<ElementV>::empty());
        assert(rs =~= Seq::<LinearRingV>::empty());
    } else {
        assert(lowered[0] == crate::encode::lower_linear_ring_v(rs[0]));
        assert(lowered[0].name == "LinearRing"@);
        lemma_rt_ring(rs[0]);
        assert(lowered.drop_first() =~= rs.drop_first().map_values(
            |r: LinearRingV| crate::encode::lower_linear_ring_v(r),
        ));
        lemma_rt_rings(rs.drop_first());
        assert(seq![rs[0]] + rs.drop_first() =~= rs);
    }
}

/// Well-formed coordinates and attribute maps, through the geometry
/// tree.
pub open spec fn geometry_ready(g: GeometryV) -> bool
    decreases g,
{
    match g {
        GeometryV::Point(p) => coord_wf(p.coord),
        GeometryV::LineString(l) => coords_wf(l.coords),
        GeometryV::LinearRing(l) => coords_wf(l.coords),
        GeometryV::Polygon(p) => coords_wf(p.outer.coords) && (forall|i: int|
            0 <= i < p.inner.len() ==> coords_wf((#[trigger] p.inner[i]).coords)) && attrs_wf(
            p.attrs,
        ),
        GeometryV::MultiGeometry(m) => geoms_ready(m.geometries) && attrs_wf(m.attrs),
    }
}

pub open spec fn geoms_ready(s: Seq<GeometryV>) -> bool
    decreases s,
{
    if s.len() == 0 {
        true
    } else {
        geometry_ready(s[0]) && geoms_ready(s.drop_first())
    }
}

/// Every lowered geometry carries a geometry tag.
pub proof fn lemma_lower_geometry_name(g: GeometryV)
    ensures
        is_geom_name(lower_geometry_v(g).name),
        lower_geometry_v(g).name == (match g {
            GeometryV::Point(_) => "Point"@,
            GeometryV::LineString(_) => "LineString"@,
            GeometryV::LinearRing(_) => "LinearRing"@,
            GeometryV::Polygon(_) => "Polygon"@,
            GeometryV::MultiGeometry(_) => "MultiGeometry"@,
        }),
{
}

/// The five geometry tags are pairwise distinct where the dispatch
/// needs them to be.
pub proof fn lemma_geom_names()
    ensures
        "Point"@.len() == 5,
        "LineString"@.len() == 10,
        "LinearRing"@.len() == 10,
        "Polygon"@.len() == 7,
        "MultiGeometry"@.len() == 13,
        "LineString"@ != "LinearRing"@,
{
    reveal_strlit("Point");
    reveal_strlit("LineString");
    reveal_strlit("LinearRing");
    reveal_strlit("Polygon");
    reveal_strlit("MultiGeometry");
    assert("LineString"@[4] == 'S' && "LinearRing"@[4] == 'a');
}

/// A lowered geometry decodes back to itself.
pub proof fn lemma_rt_geometry(g: GeometryV)
    requires
        geometry_ready(g),
    ensures
        spec_interpret_geometry(lower_geometry_v(g)) == Ok::<_, crate::views::KmlErrorV>(g),
    decreases g,
{
    lemma_geom_names();
    reveal_strlit("Point");
    reveal_strlit("LineString");
    reveal_strlit("LinearRing");
    reveal_strlit("Polygon");
    reveal_strlit("MultiGeometry");
    match g {
        GeometryV::Point(p) => {
            lemma_rt_point(p);
        },
        GeometryV::LineString(l) => {
            lemma_rt_line_string(l);
        },
        GeometryV::LinearRing(l) => {
            lemma_rt_ring(l);
        },
        GeometryV::Polygon(p) => {
            lemma_rt_polygon(p);
        },
        GeometryV::MultiGeometry(m) => {
            lemma_rt_geoms(m.geometries);
            let e = lower_geometry_v(g);
            assert(spec_interpret_geometry(e)->Ok_0 =~~= g);
        },
    }
}

/// A list of lowered geometries decodes back to the same list.
pub proof fn lemma_rt_geoms(s: Seq<GeometryV>)
    requires
        geoms_ready(s),
    ensures
        geoms_of(lower_geoms_v(s)) == Ok::<_, crate::views::KmlErrorV>(s),
    decreases s,
{
    if s.len() == 0 {
        assert(lower_geoms_v(s) == Seq::<ElementV>::empty());
        assert(geoms_of(Seq::<ElementV>::empty()) == Ok::<_, crate::views::KmlErrorV>(Seq::<
            GeometryV,
        >::empty()));
        assert(s =~= Seq::<GeometryV>::empty());
    } else {
        let lowered = lower_geoms_v(s);
        assert(lowered == seq![lower_geometry_v(s[0])] + lower_geoms_v(s.drop_first()));
        assert(lowered[0] == lower_geometry_v(s[0]));
        lemma_lower_geometry_name(s[0]);
        lemma_rt_geometry(s[0]);
        lemma_rt_geoms(s.drop_first());
        assert(lowered.drop_first() =~= lower_geoms_v(s.drop_first()));
        assert(seq![s[0]] + s.drop_first() =~= s);
    }
}

/// A lowered simple-data value decodes back to itself.
pub proof fn lemma_rt_simple_data(d: crate::views::SimpleDataV)
    ensures
        crate::decode::interpret_simple_data(crate::encode::lower_simple_data_v(d)) =~~= d,
{
}

/// The `value` children of a lowered array decode back in order.
pub proof fn lemma_rt_values(vs: Seq<Seq<char>>)
    ensures
        crate::decode::values_of(vs.map_values(|v: Seq<char>| crate::encode::text_el(
            "value"@,
            v,
        ))) == vs,
    decreases vs.len(),
{
    let lowered = vs.map_values(|v: Seq<char>| crate::encode::text_el("value"@, v));
    if vs.len() == 0 {
        assert(lowered =~= Seq::<ElementV>::empty());
        assert(crate::decode::values_of(lowered) =~= vs);
    } else {
        assert(lowered[0] == crate::encode::text_el("value"@, vs[0]));
        assert(lowered.drop_first() =~= vs.drop_first().map_values(
            |v: Seq<char>| crate::encode::text_el("value"@, v),
        ));
        lemma_rt_values(vs.drop_first());
        assert(seq![vs[0]] + vs.drop_first() =~= vs);
        assert(crate::decode::values_of(lowered) =~= vs);
    }
}

/// A lowered simple array decodes back to itself.
pub proof fn lemma_rt_simple_array(d: crate::views::SimpleArrayDataV)
    ensures
        crate::decode::interpret_simple_array_data(crate::encode::lower_simple_array_data_v(d))
            =~~= d,
{
    lemma_rt_values(d.values);
}

/// The data and array children of a lowered schema-data element sort
/// themselves back out by tag.
pub proof fn lemma_rt_schema_lists(
    datas: Seq<crate::views::SimpleDataV>,
    arrays: Seq<crate::views::SimpleArrayDataV>,
)
    ensures
        crate::decode::data_of(
            datas.map_values(|d: crate::views::SimpleDataV| crate::encode::lower_simple_data_v(d))
                + arrays.map_values(
                |d: crate::views::SimpleArrayDataV| crate::encode::lower_simple_array_data_v(d),
            ),
        ) == datas,
        crate::decode::arrays_of(
            datas.map_values(|d: crate::views::SimpleDataV| crate::encode::lower_simple_data_v(d))
                + arrays.map_values(
                |d: crate::views::SimpleArrayDataV| crate::encode::lower_simple_array_data_v(d),
            ),
        ) == arrays,
    decreases datas.len() + arrays.len(),
{
    reveal_strlit("SimpleData");
    reveal_strlit("SimpleArrayData");
    assert("SimpleData"@.len() == 10 && "SimpleArrayData"@.len() == 15);
    let dl = datas.map_values(
        |d: crate::views::SimpleDataV| crate::encode::lower_simple_data_v(d),
    );
    let al = arrays.map_values(
        |d: crate::views::SimpleArrayDataV| crate::encode::lower_simple_array_data_v(d),
    );
    if datas.len() > 0 {
        assert((dl + al)[0] == crate::encode::lower_simple_data_v(datas[0]));
        assert((dl + al).drop_first() =~= datas.drop_first().map_values(
            |d: crate::views::SimpleDataV| crate::encode::lower_simple_data_v(d),
        ) + al);
        lemma_rt_schema_lists(datas.drop_first(), arrays);
        lemma_rt_simple_data(datas[0]);
        assert(seq![datas[0]] + datas.drop_first() =~= datas);
        assert(crate::decode::data_of(dl + al) =~= datas);
        assert(crate::decode::arrays_of(dl + al) =~= arrays);
    } else if arrays.len() > 0 {
        assert(dl + al =~= al);
        assert(al[0] == crate::encode::lower_simple_array_data_v(arrays[0]));
        assert(al.drop_first() =~= arrays.drop_first().map_values(
            |d: crate::views::SimpleArrayDataV| crate::encode::lower_simple_array_data_v(d),
        ));
        lemma_rt_schema_lists(Seq::empty(), arrays.drop_first());
        assert(Seq::<crate::views::SimpleDataV>::empty().map_values(
            |d: crate::views::SimpleDataV| crate::encode::lower_simple_data_v(d),
        ) =~= Seq::<ElementV>::empty());
        assert(Seq::<ElementV>::empty() + arrays.drop_first().map_values(
            |d: crate::views::SimpleArrayDataV| crate::encode::lower_simple_array_data_v(d),
        ) =~= arrays.drop_first().map_values(
            |d: crate::views::SimpleArrayDataV| crate::encode::lower_simple_array_data_v(d),
        ));
        lemma_rt_simple_array(arrays[0]);
        assert(seq![arrays[0]] + arrays.drop_first() =~= arrays);
        assert(crate::decode::arrays_of(dl + al) =~= arrays);
        assert(crate::decode::data_of(dl + al) =~= datas);
    } else {
        assert(dl + al =~= Seq::<ElementV>::empty());
        assert(datas =~= Seq::<crate::views::SimpleDataV>::empty());
        assert(arrays =~= Seq::<crate::views::SimpleArrayDataV>::empty());
    }
}

/// A lowered pair decodes back to itself.
pub proof fn lemma_rt_pair(p: crate::views::PairV)
    ensures
        crate::decode::interpret_pair(crate::encode::lower_pair_v(p)) =~~= p,
{
    reveal_strlit("key");
    reveal_strlit("styleUrl");
    assert("key"@.len() == 3 && "styleUrl"@.len() == 8);
    let ke = crate::encode::text_el("key"@, p.key);
    let se = crate::encode::text_el("styleUrl"@, p.style_url);
    let ch = crate::encode::lower_pair_v(p).children;
    assert(ch =~= seq![ke] + seq![se]);
    lemma_first_child_append(seq![ke], seq![se], "key"@);
    lemma_first_child_append(seq![ke], seq![se], "styleUrl"@);
    lemma_first_child_one(ke, "key"@);
    lemma_first_child_one(ke, "styleUrl"@);
    lemma_first_child_one(se, "styleUrl"@);
    assert(first_child(ch, "key"@) is Some);
    assert(first_child(ch, "key"@)->0 =~= ke);
    assert(first_child(ch, "styleUrl"@) is Some);
    assert(first_child(ch, "styleUrl"@)->0 =~= se);
}

/// Lowered pairs decode back in order.
pub proof fn lemma_rt_pairs(ps: Seq<crate::views::PairV>)
    ensures
        crate::decode::pairs_of(ps.map_values(|p: crate::views::PairV| crate::encode::lower_pair_v(
            p,
        ))) == ps,
    decreases ps.len(),
{
    let lowered = ps.map_values(|p: crate::views::PairV| crate::encode::lower_pair_v(p));
    if ps.len() == 0 {
        assert(lowered =~= Seq::<ElementV>::empty());
        assert(crate::decode::pairs_of(lowered) =~= ps);
    } else {
        assert(lowered[0] == crate::encode::lower_pair_v(ps[0]));
        assert(lowered.drop_first() =~= ps.drop_first().map_values(
            |p: crate::views::PairV| crate::encode::lower_pair_v(p),
        ));
        lemma_rt_pairs(ps.drop_first());
        lemma_rt_pair(ps[0]);
        assert(seq![ps[0]] + ps.drop_first() =~= ps);
        assert(crate::decode::pairs_of(lowered) =~= ps);
    }
}

/// A lowered alias decodes back to itself.
pub proof fn lemma_rt_alias(a: crate::views::AliasV)
    ensures
        crate::decode::interpret_alias(crate::encode::lower_alias_v(a)) =~~= a,
{
    reveal_strlit("targetHref");
    reveal_strlit("sourceHref");
    assert("targetHref"@.len() == 10 && "sourceHref"@.len() == 10);
    assert("targetHref"@[0] == 't' && "sourceHref"@[0] == 's');
    let seg1: Seq<ElementV> = match a.target_href {
        Some(h) => seq![crate::encode::text_el("targetHref"@, h)],
        None => Seq::empty(),
    };
    let seg2: Seq<ElementV> = match a.source_href {
        Some(h) => seq![crate::encode::text_el("sourceHref"@, h)],
        None => Seq::empty(),
    };
    let ch = crate::encode::lower_alias_v(a).children;
    assert(ch =~= seg1 + seg2);
    lemma_first_child_append(seg1, seg2, "targetHref"@);
    lemma_first_child_append(seg1, seg2, "sourceHref"@);
    match a.target_href {
        Some(h) => {
            lemma_first_child_one(crate::encode::text_el("targetHref"@, h), "targetHref"@);
            lemma_first_child_one(crate::encode::text_el("targetHref"@, h), "sourceHref"@);
        },
        None => {
        },
    }
    match a.source_href {
        Some(h) => {
            lemma_first_child_one(crate::encode::text_el("sourceHref"@, h), "targetHref"@);
            lemma_first_child_one(crate::encode::text_el("sourceHref"@, h), "sourceHref"@);
        },
        None => {
        },
    }
}

/// Lowered aliases decode back in order.
pub proof fn lemma_rt_aliases(al: Seq<crate::views::AliasV>)
    ensures
        crate::decode::aliases_of(al.map_values(
            |a: crate::views::AliasV| crate::encode::lower_alias_v(a),
        )) == al,
    decreases al.len(),
{
    reveal_strlit("Alias");
    let lowered = al.map_values(|a: crate::views::AliasV| crate::encode::lower_alias_v(a));
    if al.len() == 0 {
        assert(lowered =~= Seq::<ElementV>::empty());
        assert(crate::decode::aliases_of(lowered) =~= al);
    } else {
        assert(lowered[0] == crate::encode::lower_alias_v(al[0]));
        assert(lowered.drop_first() =~= al.drop_first().map_values(
            |a: crate::views::AliasV| crate::encode::lower_alias_v(a),
        ));
        lemma_rt_aliases(al.drop_first());
        lemma_rt_alias(al[0]);
        assert(seq![al[0]] + al.drop_first() =~= al);
        assert(crate::decode::aliases_of(lowered) =~= al);
    }
}

/// A lowered placemark decodes back to itself.
#[verifier::rlimit(80)]
pub proof fn lemma_rt_placemark(p: crate::views::PlacemarkV)
    requires
        forall|i: int| 0 <= i < p.children.len() ==> !reserved_child(
            (#[trigger] p.children[i]).name,
        ),
        match p.geometry {
            Some(g) => geometry_ready(g),
            None => true,
        },
    ensures
        crate::decode::interpret_placemark(crate::encode::lower_placemark_v(p)) == Ok::<
            _,
            crate::views::KmlErrorV,
        >(p),
{
    reveal_strlit("name");
    reveal_strlit("description");
    lemma_geom_names();
    assert("name"@.len() == 4 && "description"@.len() == 11);
    let seg1: Seq<ElementV> = match p.name {
        Some(n) => seq![crate::encode::text_el("name"@, n)],
        None => Seq::empty(),
    };
    let seg2: Seq<ElementV> = match p.description {
        Some(d) => seq![crate::encode::text_el("description"@, d)],
        None => Seq::empty(),
    };
    let seg4: Seq<ElementV> = match p.geometry {
        Some(g) => seq![lower_geometry_v(g)],
        None => Seq::empty(),
    };
    let ch = crate::encode::lower_placemark_v(p).children;
    assert(ch =~= seg1 + (seg2 + (p.children + seg4)));
    assert(ch =~= (seg1 + seg2 + p.children) + seg4);
    // the name and description fields
    lemma_first_child_append(seg1, seg2 + (p.children + seg4), "name"@);
    lemma_first_child_append(seg2, p.children + seg4, "name"@);
    lemma_first_child_append(p.children, seg4, "name"@);
    lemma_first_child_append(seg1, seg2 + (p.children + seg4), "description"@);
    lemma_first_child_append(seg2, p.children + seg4, "description"@);
    lemma_first_child_append(p.children, seg4, "description"@);
    assert forall|i: int| 0 <= i < p.children.len() implies (#[trigger] p.children[i]).name
        != "name"@ && p.children[i].name != "description"@ by {}
    lemma_first_child_none(p.children, "name"@);
    lemma_first_child_none(p.children, "description"@);
    match p.name {
        Some(n) => {
            lemma_first_child_one(crate::encode::text_el("name"@, n), "name"@);
            lemma_first_child_one(crate::encode::text_el("name"@, n), "description"@);
        },
        None => {
        },
    }
    match p.description {
        Some(d) => {
            lemma_first_child_one(crate::encode::text_el("description"@, d), "name"@);
            lemma_first_child_one(crate::encode::text_el("description"@, d), "description"@);
        },
        None => {
        },
    }
    match p.geometry {
        Some(g) => {
            lemma_lower_geometry_name(g);
            lemma_first_child_one(lower_geometry_v(g), "name"@);
            lemma_first_child_one(lower_geometry_v(g), "description"@);
        },
        None => {
        },
    }
    assert(field_text(ch, "name"@) == p.name);
    assert(field_text(ch, "description"@) == p.description);
    // the geometry scan
    let pre = seg1 + seg2 + p.children;
    assert forall|q: int| 0 <= q < pre.len() implies !is_geom_name(
        (#[trigger] pre[q]).name,
    ) by {
        if q < seg1.len() {
            assert(pre[q] == seg1[q]);
        } else if q < seg1.len() + seg2.len() {
            assert(pre[q] == seg2[q - seg1.len()]);
        } else {
            assert(pre[q] == p.children[q - seg1.len() - seg2.len()]);
        }
    }
    match p.geometry {
        Some(g) => {
            let m = pre.len() as int;
            assert(ch[m] == lower_geometry_v(g));
            lemma_lower_geometry_name(g);
            assert forall|q: int| 0 <= q < m implies !is_geom_name(
                (#[trigger] ch[q]).name,
            ) by {
                assert(ch[q] == pre[q]);
            }
            lemma_first_geom_at(ch, 0, m);
            lemma_rt_geometry(g);
        },
        None => {
            assert(ch =~= pre);
            lemma_first_geom_none(ch, 0);
        },
    }
    // the kept children
    lemma_keep_append(seg1 + seg2 + p.children, seg4);
    lemma_keep_append(seg1 + seg2, p.children);
    lemma_keep_append(seg1, seg2);
    assert forall|i: int| 0 <= i < seg1.len() implies reserved_child(
        (#[trigger] seg1[i]).name,
    ) by {}
    assert forall|i: int| 0 <= i < seg2.len() implies reserved_child(
        (#[trigger] seg2[i]).name,
    ) by {}
    assert forall|i: int| 0 <= i < seg4.len() implies reserved_child(
        (#[trigger] seg4[i]).name,
    ) by {
        match p.geometry {
            Some(g) => {
                lemma_lower_geometry_name(g);
            },
            None => {
            },
        }
    }
    lemma_keep_none(seg1);
    lemma_keep_none(seg2);
    lemma_keep_none(seg4);
    lemma_keep_all(p.children);
    assert(keep_children(ch) =~= p.children);
    assert(crate::decode::interpret_placemark(crate::encode::lower_placemark_v(p)) is Ok);
    assert(crate::decode::interpret_placemark(crate::encode::lower_placemark_v(p))->Ok_0 =~~= p);
}

/// Every attribute list in a raw element tree has pairwise distinct
/// keys: the validity of the tag-attribute mapping, through the tree.
pub open spec fn elem_attrs_wf(e: ElementV) -> bool
    decreases e,
{
    attrs_wf(e.attrs) && elems_attrs_wf(e.children)
}

pub open spec fn elems_attrs_wf(s: Seq<ElementV>) -> bool
    decreases s,
{
    if s.len() == 0 {
        true
    } else {
        elem_attrs_wf(s[0]) && elems_attrs_wf(s.drop_first())
    }
}

/// The conditions a link layout needs to decode back: its three
/// numeric fields inside the scalar grammar, its attribute keys
/// distinct.
pub open spec fn link_ready(l: crate::views::LinkV) -> bool {
    &&& valid_number(l.refresh_interval)
    &&& valid_number(l.view_refresh_time)
    &&& valid_number(l.view_bound_scale)
    &&& attrs_wf(l.attrs)
}

/// The conditions an icon style needs to decode back: scale, heading
/// and any hot-spot offsets inside the scalar grammar.
pub open spec fn icon_style_ready(i: crate::views::IconStyleV) -> bool {
    &&& valid_number(i.scale)
    &&& valid_number(i.heading)
    &&& match i.hot_spot {
        Some(h) => valid_number(h.x) && valid_number(h.y),
        None => true,
    }
}

/// The conditions an aggregate style needs to decode back: each
/// present sub-style's numeric fields inside the scalar grammar.
pub open spec fn style_ready(s: crate::views::StyleV) -> bool {
    &&& match s.icon {
        Some(i) => icon_style_ready(i),
        None => true,
    }
    &&& match s.label {
        Some(l) => valid_number(l.scale),
        None => true,
    }
    &&& match s.line {
        Some(l) => valid_number(l.width),
        None => true,
    }
    &&& match s.list {
        Some(l) => valid_number(l.max_snippet_lines),
        None => true,
    }
}

/// The trees the round-trip law covers, with the conditions decoding
/// needs: scalars inside the grammar, attribute keys pairwise
/// distinct (the validity of the tag-attribute mapping), placemark
/// children off the schema's reserved tags, generic elements off the
/// recognized tags, and no bare icon node — a top-level `<Icon>`
/// always decodes as the link-shaped icon, so the bare icon variant
/// alone stays outside this law.
pub open spec fn round_trip_ready(k: KmlV) -> bool
    decreases k,
{
    match k {
        KmlV::KmlDocument(d) => attrs_wf(d.attrs) && ready_seq(d.elements),
        KmlV::Document { attrs, elements } => attrs_wf(attrs) && ready_seq(elements),
        KmlV::Folder { attrs, elements } => attrs_wf(attrs) && ready_seq(elements),
        KmlV::Scale(v) => valid_number(v.x) && valid_number(v.y) && valid_number(v.z),
        KmlV::Orientation(v) => valid_number(v.roll) && valid_number(v.tilt) && valid_number(
            v.heading,
        ),
        KmlV::Location(v) => valid_number(v.longitude) && valid_number(v.latitude)
            && valid_number(v.altitude),
        KmlV::Point(p) => coord_wf(p.coord),
        KmlV::LineString(l) => coords_wf(l.coords),
        KmlV::LinearRing(l) => coords_wf(l.coords),
        KmlV::Polygon(p) => coords_wf(p.outer.coords) && (forall|i: int|
            0 <= i < p.inner.len() ==> coords_wf((#[trigger] p.inner[i]).coords)) && attrs_wf(
            p.attrs,
        ),
        KmlV::MultiGeometry(m) => geoms_ready(m.geometries) && attrs_wf(m.attrs),
        KmlV::Placemark(p) => (forall|i: int|
            0 <= i < p.children.len() ==> !reserved_child((#[trigger] p.children[i]).name))
            && (match p.geometry {
            Some(g) => geometry_ready(g),
            None => true,
        }) && elems_attrs_wf(p.children),
        KmlV::Style(s) => style_ready(s),
        KmlV::IconStyle(i) => icon_style_ready(i),
        KmlV::Link(l) => link_ready(l),
        KmlV::LinkTypeIcon(l) => link_ready(l),
        KmlV::Pair(p) => attrs_wf(p.attrs),
        KmlV::StyleMap(sm) => forall|i: int|
            0 <= i < sm.pairs.len() ==> attrs_wf((#[trigger] sm.pairs[i]).attrs),
        KmlV::BalloonStyle(_) => true,
        KmlV::LabelStyle(v) => valid_number(v.scale),
        KmlV::LineStyle(v) => valid_number(v.width),
        KmlV::PolyStyle(_) => true,
        KmlV::ListStyle(v) => valid_number(v.max_snippet_lines),
        KmlV::Alias(a) => attrs_wf(a.attrs),
        KmlV::ResourceMap(r) => attrs_wf(r.attrs) && (forall|i: int|
            0 <= i < r.aliases.len() ==> attrs_wf((#[trigger] r.aliases[i]).attrs)),
        KmlV::SchemaData(sd) => attrs_wf(sd.attrs) && (forall|i: int|
            0 <= i < sd.data.len() ==> attrs_wf((#[trigger] sd.data[i]).attrs)) && (forall|j: int|
            0 <= j < sd.arrays.len() ==> attrs_wf((#[trigger] sd.arrays[j]).attrs)),
        KmlV::SimpleData(d) => attrs_wf(d.attrs),
        KmlV::SimpleArrayData(d) => attrs_wf(d.attrs),
        KmlV::Element(e) => !recognized(e.name) && elem_attrs_wf(e),
        _ => false,
    }
}

pub open spec fn ready_seq(s: Seq<KmlV>) -> bool
    decreases s,
{
    if s.len() == 0 {
        true
    } else {
        round_trip_ready(s[0]) && ready_seq(s.drop_first())
    }
}

/// Interpreting a lowered tree gives the tree back.
#[verifier::rlimit(100)]
pub proof fn lemma_interpret_of_lower(k: KmlV)
    requires
        round_trip_ready(k),
    ensures
        spec_interpret(lower_v(k)) == Ok::<_, crate::views::KmlErrorV>(k),
    decreases k,
{
    reveal_strlit("kml");
    reveal_strlit("Document");
    reveal_strlit("Folder");
    reveal_strlit("Scale");
    reveal_strlit("Orientation");
    reveal_strlit("Location");
    reveal_strlit("Placemark");
    reveal_strlit("Style");
    reveal_strlit("StyleMap");
    reveal_strlit("Pair");
    reveal_strlit("BalloonStyle");
    reveal_strlit("IconStyle");
    reveal_strlit("LabelStyle");
    reveal_strlit("LineStyle");
    reveal_strlit("PolyStyle");
    reveal_strlit("ListStyle");
    reveal_strlit("Icon");
    reveal_strlit("Link");
    reveal_strlit("ResourceMap");
    reveal_strlit("Alias");
    reveal_strlit("SchemaData");
    reveal_strlit("SimpleArrayData");
    reveal_strlit("SimpleData");
    reveal_strlit("Point");
    reveal_strlit("LineString");
    reveal_strlit("LinearRing");
    reveal_strlit("Polygon");
    reveal_strlit("MultiGeometry");
    lemma_geom_names();
    assert("kml"@.len() == 3 && "Document"@.len() == 8 && "Folder"@.len() == 6
        && "Scale"@.len() == 5 && "Orientation"@.len() == 11 && "Location"@.len() == 8
        && "Placemark"@.len() == 9 && "Style"@.len() == 5 && "StyleMap"@.len() == 8
        && "Pair"@.len() == 4 && "BalloonStyle"@.len() == 12 && "IconStyle"@.len() == 9
        && "LabelStyle"@.len() == 10 && "LineStyle"@.len() == 9 && "PolyStyle"@.len() == 9
        && "ListStyle"@.len() == 9 && "Icon"@.len() == 4 && "Link"@.len() == 4
        && "ResourceMap"@.len() == 11 && "Alias"@.len() == 5 && "SchemaData"@.len() == 10
        && "SimpleArrayData"@.len() == 15 && "SimpleData"@.len() == 10);
    assert("Scale"@[0] == 'S' && "Point"@[0] == 'P' && "Style"@[0] == 'S' && "Alias"@[0]
        == 'A');
    assert("Location"@[0] == 'L' && "Document"@[0] == 'D' && "StyleMap"@[0] == 'S');
    assert("Orientation"@[0] == 'O' && "ResourceMap"@[0] == 'R');
    assert("SchemaData"@[1] == 'c' && "SimpleData"@[1] == 'i' && "LabelStyle"@[0] == 'L'
        && "LineString"@[0] == 'L' && "LinearRing"@[0] == 'L' && "SchemaData"@[0] == 'S'
        && "SimpleData"@[0] == 'S' && "Scale"@[1] == 'c' && "StyleMap"@[1] == 't'
        && "Style"@[1] == 't');
    assert("Placemark"@[0] == 'P' && "LineStyle"@[0] == 'L' && "PolyStyle"@[0] == 'P'
        && "ListStyle"@[0] == 'L' && "IconStyle"@[0] == 'I' && "Pair"@[0] == 'P'
        && "Icon"@[0] == 'I' && "Link"@[0] == 'L');
    assert("LabelStyle"@[1] == 'a' && "LineString"@[1] == 'i' && "LinearRing"@[1] == 'i'
        && "PolyStyle"@[1] == 'o' && "Placemark"@[1] == 'l' && "ListStyle"@[1] == 'i'
        && "LineStyle"@[1] == 'i' && "ListStyle"@[2] == 's' && "LineStyle"@[2] == 'n');
    match k {
        KmlV::KmlDocument(d) => {
            lemma_rt_list(d.elements);
            assert(spec_interpret(lower_v(k))->Ok_0 =~~= k);
        },
        KmlV::Document { attrs, elements } => {
            lemma_rt_list(elements);
            assert(spec_interpret(lower_v(k))->Ok_0 =~~= k);
        },
        KmlV::Folder { attrs, elements } => {
            lemma_rt_list(elements);
            assert(spec_interpret(lower_v(k))->Ok_0 =~~= k);
        },
        KmlV::Scale(v) => {
            lemma_rt_scale(v);
        },
        KmlV::Orientation(v) => {
            lemma_rt_orientation(v);
        },
        KmlV::Location(v) => {
            lemma_rt_location(v);
        },
        KmlV::Point(p) => {
            lemma_rt_geometry(GeometryV::Point(p));
        },
        KmlV::LineString(l) => {
            lemma_rt_geometry(GeometryV::LineString(l));
        },
        KmlV::LinearRing(l) => {
            lemma_rt_geometry(GeometryV::LinearRing(l));
        },
        KmlV::Polygon(p) => {
            lemma_rt_geometry(GeometryV::Polygon(p));
        },
        KmlV::MultiGeometry(m) => {
            lemma_rt_geometry(GeometryV::MultiGeometry(m));
        },
        KmlV::Placemark(p) => {
            lemma_rt_placemark(p);
        },
        KmlV::Style(s) => {
            lemma_rt_style(s);
        },
        KmlV::IconStyle(i) => {
            lemma_rt_icon_style(i);
        },
        KmlV::Link(l) => {
            lemma_rt_link("Link"@, l);
        },
        KmlV::LinkTypeIcon(l) => {
            lemma_rt_link("Icon"@, l);
        },
        KmlV::Pair(p) => {
            lemma_rt_pair(p);
        },
        KmlV::BalloonStyle(b) => {
            lemma_rt_balloon(b);
            lemma_rt_id(b.id);
            assert(spec_interpret(lower_v(k))->Ok_0 =~~= k);
        },
        KmlV::LabelStyle(v) => {
            lemma_rt_label_style(v);
        },
        KmlV::LineStyle(v) => {
            lemma_rt_line_style(v);
        },
        KmlV::PolyStyle(v) => {
            lemma_rt_poly_style(v);
        },
        KmlV::ListStyle(v) => {
            lemma_rt_list_style(v);
        },
        KmlV::StyleMap(sm) => {
            lemma_rt_pairs(sm.pairs);
            reveal_strlit("id");
            assert(attr_of(crate::encode::id_attrs(sm.id), "id"@) == Some(sm.id));
            assert(spec_interpret(lower_v(k))->Ok_0 =~~= k);
        },
        KmlV::Alias(a) => {
            lemma_rt_alias(a);
        },
        KmlV::ResourceMap(r) => {
            lemma_rt_aliases(r.aliases);
            assert(spec_interpret(lower_v(k))->Ok_0 =~~= k);
        },
        KmlV::SchemaData(sd) => {
            lemma_rt_schema_lists(sd.data, sd.arrays);
            assert(spec_interpret(lower_v(k))->Ok_0 =~~= k);
        },
        KmlV::SimpleData(d) => {
            lemma_rt_simple_data(d);
        },
        KmlV::SimpleArrayData(d) => {
            lemma_rt_simple_array(d);
        },
        KmlV::Element(e) => {
            lemma_unknown_element_preserved(e);
        },
        _ => {
            assert(false);
        },
    }
}

/// A lowered child list interprets back in order.
pub proof fn lemma_rt_list(s: Seq<KmlV>)
    requires
        ready_seq(s),
    ensures
        interpret_list(lower_seq_v(s)) == Ok::<_, crate::views::KmlErrorV>(s),
    decreases s,
{
    if s.len() == 0 {
        assert(lower_seq_v(s) == Seq::<ElementV>::empty());
        assert(interpret_list(Seq::<ElementV>::empty()) == Ok::<_, crate::views::KmlErrorV>(
            Seq::<KmlV>::empty(),
        ));
        assert(s =~= Seq::<KmlV>::empty());
    } else {
        let lowered = lower_seq_v(s);
        assert(lowered == seq![lower_v(s[0])] + lower_seq_v(s.drop_first()));
        assert(lowered[0] == lower_v(s[0]));
        lemma_interpret_of_lower(s[0]);
        lemma_rt_list(s.drop_first());
        assert(lowered.drop_first() =~= lower_seq_v(s.drop_first()));
        assert(seq![s[0]] + s.drop_first() =~= s);
    }
}

/// THE ROUND TRIP: decoding what a tree encodes gives the tree back.
///
/// The event stream a tree's raw element emits, closed by end of
/// input, parses and interprets to exactly the original tree, for
/// every tree `round_trip_ready` admits.
pub proof fn lemma_round_trip(k: KmlV)
    requires
        round_trip_ready(k),
    ensures
        crate::decode::spec_decode(emit(lower_v(k)).push(EventV::Eof)) == Ok::<
            _,
            crate::views::KmlErrorV,
        >(k),
{
    lemma_parse_of_emit(lower_v(k));
    lemma_interpret_of_lower(k);
}

/// The colour-mode text round-trips.
pub proof fn lemma_rt_cm(m: crate::model::ColorMode)
    ensures
        crate::decode::color_mode_of_text(crate::txt::color_mode_text(m)) == Some(m),
{
    reveal_strlit("default");
    reveal_strlit("normal");
    reveal_strlit("random");
    assert("default"@.len() == 7 && "normal"@.len() == 6 && "random"@.len() == 6);
    assert("normal"@[0] == 'n' && "random"@[0] == 'r');
}

/// The style id attribute reads back.
pub proof fn lemma_rt_id(id: Seq<char>)
    ensures
        crate::decode::id_of(crate::encode::id_attrs(id)) == id,
{
    assert(attr_of(crate::encode::id_attrs(id), "id"@) == Some(id));
}

/// A lowered poly style decodes back to itself.
pub proof fn lemma_rt_poly_style(v: crate::views::PolyStyleV)
    ensures
        crate::decode::interpret_poly_style(crate::encode::lower_poly_style_v(v)) == Ok::<
            _,
            crate::views::KmlErrorV,
        >(v),
{
    reveal_strlit("color");
    reveal_strlit("colorMode");
    reveal_strlit("fill");
    reveal_strlit("outline");
    assert("color"@.len() == 5 && "colorMode"@.len() == 9 && "fill"@.len() == 4
        && "outline"@.len() == 7);
    let c1 = crate::encode::text_el("color"@, v.color);
    let c2 = crate::encode::text_el("colorMode"@, crate::txt::color_mode_text(v.color_mode));
    let c3 = crate::encode::text_el("fill"@, bool_text(v.fill));
    let c4 = crate::encode::text_el("outline"@, bool_text(v.outline));
    let ch = crate::encode::lower_poly_style_v(v).children;
    assert(ch =~= seq![c1] + (seq![c2] + (seq![c3] + seq![c4])));
    lemma_first_child_append(seq![c1], seq![c2] + (seq![c3] + seq![c4]), "color"@);
    lemma_first_child_one(c1, "color"@);
    assert(first_child(ch, "color"@) is Some);
    assert(first_child(ch, "color"@)->0 =~= c1);
    lemma_first_child_append(seq![c1], seq![c2] + (seq![c3] + seq![c4]), "colorMode"@);
    lemma_first_child_append(seq![c2], seq![c3] + seq![c4], "colorMode"@);
    lemma_first_child_one(c1, "colorMode"@);
    lemma_first_child_one(c2, "colorMode"@);
    assert(first_child(ch, "colorMode"@) is Some);
    assert(first_child(ch, "colorMode"@)->0 =~= c2);
    lemma_rt_cm(v.color_mode);
    lemma_first_child_append(seq![c1], seq![c2] + (seq![c3] + seq![c4]), "fill"@);
    lemma_first_child_append(seq![c2], seq![c3] + seq![c4], "fill"@);
    lemma_first_child_append(seq![c3], seq![c4], "fill"@);
    lemma_first_child_one(c1, "fill"@);
    lemma_first_child_one(c2, "fill"@);
    lemma_first_child_one(c3, "fill"@);
    assert(first_child(ch, "fill"@) is Some);
    assert(first_child(ch, "fill"@)->0 =~= c3);
    lemma_first_child_append(seq![c1], seq![c2] + (seq![c3] + seq![c4]), "outline"@);
    lemma_first_child_append(seq![c2], seq![c3] + seq![c4], "outline"@);
    lemma_first_child_append(seq![c3], seq![c4], "outline"@);
    lemma_first_child_one(c1, "outline"@);
    lemma_first_child_one(c2, "outline"@);
    lemma_first_child_one(c3, "outline"@);
    lemma_first_child_one(c4, "outline"@);
    assert(first_child(ch, "outline"@) is Some);
    assert(first_child(ch, "outline"@)->0 =~= c4);
    lemma_bool_text_inverts(v.fill);
    lemma_bool_text_inverts(v.outline);
    lemma_rt_id(v.id);
    assert(crate::decode::interpret_poly_style(crate::encode::lower_poly_style_v(v))->Ok_0
        =~~= v);
}

/// A lowered label style decodes back to itself.
pub proof fn lemma_rt_label_style(v: crate::views::LabelStyleV)
    requires
        valid_number(v.scale),
    ensures
        crate::decode::interpret_label_style(crate::encode::lower_label_style_v(v)) == Ok::<
            _,
            crate::views::KmlErrorV,
        >(v),
{
    reveal_strlit("color");
    reveal_strlit("colorMode");
    reveal_strlit("scale");
    assert("color"@.len() == 5 && "colorMode"@.len() == 9 && "scale"@.len() == 5);
    assert("color"@[0] == 'c' && "scale"@[0] == 's');
    let c1 = crate::encode::text_el("color"@, v.color);
    let c2 = crate::encode::text_el("colorMode"@, crate::txt::color_mode_text(v.color_mode));
    let c3 = crate::encode::text_el("scale"@, v.scale);
    let ch = crate::encode::lower_label_style_v(v).children;
    assert(ch =~= seq![c1] + (seq![c2] + seq![c3]));
    lemma_first_child_append(seq![c1], seq![c2] + seq![c3], "color"@);
    lemma_first_child_one(c1, "color"@);
    assert(first_child(ch, "color"@) is Some);
    assert(first_child(ch, "color"@)->0 =~= c1);
    lemma_first_child_append(seq![c1], seq![c2] + seq![c3], "colorMode"@);
    lemma_first_child_append(seq![c2], seq![c3], "colorMode"@);
    lemma_first_child_one(c1, "colorMode"@);
    lemma_first_child_one(c2, "colorMode"@);
    assert(first_child(ch, "colorMode"@) is Some);
    assert(first_child(ch, "colorMode"@)->0 =~= c2);
    lemma_rt_cm(v.color_mode);
    lemma_first_child_append(seq![c1], seq![c2] + seq![c3], "scale"@);
    lemma_first_child_append(seq![c2], seq![c3], "scale"@);
    lemma_first_child_one(c1, "scale"@);
    lemma_first_child_one(c2, "scale"@);
    lemma_first_child_one(c3, "scale"@);
    assert(first_child(ch, "scale"@) is Some);
    assert(first_child(ch, "scale"@)->0 =~= c3);
    lemma_rt_id(v.id);
    assert(crate::decode::interpret_label_style(crate::encode::lower_label_style_v(v))->Ok_0
        =~~= v);
}

/// A lowered line style decodes back to itself.
pub proof fn lemma_rt_line_style(v: crate::views::LineStyleV)
    requires
        valid_number(v.width),
    ensures
        crate::decode::interpret_line_style(crate::encode::lower_line_style_v(v)) == Ok::<
            _,
            crate::views::KmlErrorV,
        >(v),
{
    reveal_strlit("color");
    reveal_strlit("colorMode");
    reveal_strlit("width");
    assert("color"@.len() == 5 && "colorMode"@.len() == 9 && "width"@.len() == 5);
    assert("color"@[0] == 'c' && "width"@[0] == 'w');
    let c1 = crate::encode::text_el("color"@, v.color);
    let c2 = crate::encode::text_el("colorMode"@, crate::txt::color_mode_text(v.color_mode));
    let c3 = crate::encode::text_el("width"@, v.width);
    let ch = crate::encode::lower_line_style_v(v).children;
    assert(ch =~= seq![c1] + (seq![c2] + seq![c3]));
    lemma_first_child_append(seq![c1], seq![c2] + seq![c3], "color"@);
    lemma_first_child_one(c1, "color"@);
    assert(first_child(ch, "color"@) is Some);
    assert(first_child(ch, "color"@)->0 =~= c1);
    lemma_first_child_append(seq![c1], seq![c2] + seq![c3], "colorMode"@);
    lemma_first_child_append(seq![c2], seq![c3], "colorMode"@);
    lemma_first_child_one(c1, "colorMode"@);
    lemma_first_child_one(c2, "colorMode"@);
    assert(first_child(ch, "colorMode"@) is Some);
    assert(first_child(ch, "colorMode"@)->0 =~= c2);
    lemma_rt_cm(v.color_mode);
    lemma_first_child_append(seq![c1], seq![c2] + seq![c3], "width"@);
    lemma_first_child_append(seq![c2], seq![c3], "width"@);
    lemma_first_child_one(c1, "width"@);
    lemma_first_child_one(c2, "width"@);
    lemma_first_child_one(c3, "width"@);
    assert(first_child(ch, "width"@) is Some);
    assert(first_child(ch, "width"@)->0 =~= c3);
    lemma_rt_id(v.id);
    assert(crate::decode::interpret_line_style(crate::encode::lower_line_style_v(v))->Ok_0
        =~~= v);
}

/// A lowered list style decodes back to itself.
pub proof fn lemma_rt_list_style(v: crate::views::ListStyleV)
    requires
        valid_number(v.max_snippet_lines),
    ensures
        crate::decode::interpret_list_style(crate::encode::lower_list_style_v(v)) == Ok::<
            _,
            crate::views::KmlErrorV,
        >(v),
{
    reveal_strlit("bgColor");
    reveal_strlit("maxSnippetLines");
    assert("bgColor"@.len() == 7 && "maxSnippetLines"@.len() == 15);
    let c1 = crate::encode::text_el("bgColor"@, v.bg_color);
    let c2 = crate::encode::text_el("maxSnippetLines"@, v.max_snippet_lines);
    let ch = crate::encode::lower_list_style_v(v).children;
    assert(ch =~= seq![c1] + seq![c2]);
    lemma_first_child_append(seq![c1], seq![c2], "bgColor"@);
    lemma_first_child_one(c1, "bgColor"@);
    assert(first_child(ch, "bgColor"@) is Some);
    assert(first_child(ch, "bgColor"@)->0 =~= c1);
    lemma_first_child_append(seq![c1], seq![c2], "maxSnippetLines"@);
    lemma_first_child_one(c1, "maxSnippetLines"@);
    lemma_first_child_one(c2, "maxSnippetLines"@);
    assert(first_child(ch, "maxSnippetLines"@) is Some);
    assert(first_child(ch, "maxSnippetLines"@)->0 =~= c2);
    lemma_rt_id(v.id);
    assert(crate::decode::interpret_list_style(crate::encode::lower_list_style_v(v))->Ok_0
        =~~= v);
}

/// A lowered balloon style decodes back to itself.
pub proof fn lemma_rt_balloon(v: crate::views::BalloonStyleV)
    ensures
        crate::decode::interpret_balloon(crate::encode::lower_balloon_style_v(v)) =~~= v,
{
    reveal_strlit("bgColor");
    reveal_strlit("textColor");
    reveal_strlit("text");
    reveal_strlit("displayMode");
    assert("bgColor"@.len() == 7 && "textColor"@.len() == 9 && "text"@.len() == 4
        && "displayMode"@.len() == 11);
    let seg1: Seq<ElementV> = match v.bg_color {
        Some(c) => seq![crate::encode::text_el("bgColor"@, c)],
        None => Seq::empty(),
    };
    let tc = crate::encode::text_el("textColor"@, v.text_color);
    let seg3: Seq<ElementV> = match v.text {
        Some(t) => seq![crate::encode::text_el("text"@, t)],
        None => Seq::empty(),
    };
    let seg4: Seq<ElementV> = if v.display {
        Seq::empty()
    } else {
        seq![crate::encode::text_el("displayMode"@, "hide"@)]
    };
    let ch = crate::encode::lower_balloon_style_v(v).children;
    assert(ch =~= seg1 + (seq![tc] + (seg3 + seg4)));
    lemma_balloon_scans(v, seg1, tc, seg3, seg4);
    assert(crate::decode::interpret_balloon(crate::encode::lower_balloon_style_v(v)) =~~= v);
}

/// The four balloon-style field scans.
proof fn lemma_balloon_scans(
    v: crate::views::BalloonStyleV,
    seg1: Seq<ElementV>,
    tc: ElementV,
    seg3: Seq<ElementV>,
    seg4: Seq<ElementV>,
)
    requires
        seg1 == (match v.bg_color {
            Some(c) => seq![crate::encode::text_el("bgColor"@, c)],
            None => Seq::<ElementV>::empty(),
        }),
        tc == crate::encode::text_el("textColor"@, v.text_color),
        seg3 == (match v.text {
            Some(t) => seq![crate::encode::text_el("text"@, t)],
            None => Seq::<ElementV>::empty(),
        }),
        seg4 == (if v.display {
            Seq::<ElementV>::empty()
        } else {
            seq![crate::encode::text_el("displayMode"@, "hide"@)]
        }),
    ensures
        field_text(seg1 + (seq![tc] + (seg3 + seg4)), "bgColor"@) == v.bg_color,
        field_text(seg1 + (seq![tc] + (seg3 + seg4)), "textColor"@) == Some(v.text_color),
        field_text(seg1 + (seq![tc] + (seg3 + seg4)), "text"@) == v.text,
        (match field_text(seg1 + (seq![tc] + (seg3 + seg4)), "displayMode"@) {
            None => true,
            Some(t) => t != "hide"@,
        }) == v.display,
{
    reveal_strlit("bgColor");
    reveal_strlit("textColor");
    reveal_strlit("text");
    reveal_strlit("displayMode");
    reveal_strlit("hide");
    assert("bgColor"@.len() == 7 && "textColor"@.len() == 9 && "text"@.len() == 4
        && "displayMode"@.len() == 11);
    let ch = seg1 + (seq![tc] + (seg3 + seg4));
    lemma_first_child_append(seg1, seq![tc] + (seg3 + seg4), "bgColor"@);
    lemma_first_child_append(seg1, seq![tc] + (seg3 + seg4), "textColor"@);
    lemma_first_child_append(seg1, seq![tc] + (seg3 + seg4), "text"@);
    lemma_first_child_append(seg1, seq![tc] + (seg3 + seg4), "displayMode"@);
    lemma_first_child_append(seq![tc], seg3 + seg4, "bgColor"@);
    lemma_first_child_append(seq![tc], seg3 + seg4, "textColor"@);
    lemma_first_child_append(seq![tc], seg3 + seg4, "text"@);
    lemma_first_child_append(seq![tc], seg3 + seg4, "displayMode"@);
    lemma_first_child_append(seg3, seg4, "bgColor"@);
    lemma_first_child_append(seg3, seg4, "textColor"@);
    lemma_first_child_append(seg3, seg4, "text"@);
    lemma_first_child_append(seg3, seg4, "displayMode"@);
    lemma_first_child_one(tc, "bgColor"@);
    lemma_first_child_one(tc, "textColor"@);
    lemma_first_child_one(tc, "text"@);
    lemma_first_child_one(tc, "displayMode"@);
    match v.bg_color {
        Some(c) => {
            let e0 = crate::encode::text_el("bgColor"@, c);
            lemma_first_child_one(e0, "bgColor"@);
            lemma_first_child_one(e0, "textColor"@);
            lemma_first_child_one(e0, "text"@);
            lemma_first_child_one(e0, "displayMode"@);
        },
        None => {
        },
    }
    match v.text {
        Some(t) => {
            let e0 = crate::encode::text_el("text"@, t);
            lemma_first_child_one(e0, "bgColor"@);
            lemma_first_child_one(e0, "textColor"@);
            lemma_first_child_one(e0, "text"@);
            lemma_first_child_one(e0, "displayMode"@);
        },
        None => {
        },
    }
    if !v.display {
        let e0 = crate::encode::text_el("displayMode"@, "hide"@);
        lemma_first_child_one(e0, "bgColor"@);
        lemma_first_child_one(e0, "textColor"@);
        lemma_first_child_one(e0, "text"@);
        lemma_first_child_one(e0, "displayMode"@);
        assert("hide"@ == "hide"@);
    }
}

/// The refresh-mode text round-trips.
pub proof fn lemma_rt_refresh_mode(m: crate::model::RefreshMode)
    ensures
        crate::decode::refresh_mode_of_text(crate::txt::refresh_mode_text(m)) == Some(m),
{
    reveal_strlit("onChange");
    reveal_strlit("onInterval");
    reveal_strlit("onExpire");
    assert("onChange"@.len() == 8 && "onInterval"@.len() == 10 && "onExpire"@.len() == 8);
    assert("onChange"@[2] == 'C' && "onExpire"@[2] == 'E');
}

/// The view-refresh-mode text round-trips.
pub proof fn lemma_rt_view_refresh_mode(m: crate::model::ViewRefreshMode)
    ensures
        crate::decode::view_refresh_mode_of_text(crate::txt::view_refresh_mode_text(m)) == Some(
            m,
        ),
{
    reveal_strlit("never");
    reveal_strlit("onRequest");
    reveal_strlit("onStop");
    reveal_strlit("onRegion");
    assert("never"@.len() == 5 && "onRequest"@.len() == 9 && "onStop"@.len() == 6
        && "onRegion"@.len() == 8);
}

/// The hot-spot unit text round-trips.
pub proof fn lemma_rt_units(u: crate::model::Units)
    ensures
        crate::decode::units_of_text(crate::txt::units_text(u)) == Some(u),
{
    reveal_strlit("fraction");
    reveal_strlit("pixels");
    reveal_strlit("insetPixels");
    assert("fraction"@.len() == 8 && "pixels"@.len() == 6 && "insetPixels"@.len() == 11);
}

/// A lowered hot-spot decodes back to itself: its value lives entirely
/// in the four tag attributes.
pub proof fn lemma_rt_hot_spot(h: crate::views::HotSpotV)
    requires
        valid_number(h.x),
        valid_number(h.y),
    ensures
        crate::decode::interpret_hot_spot(crate::encode::lower_hot_spot_v(h)) == Ok::<
            _,
            crate::views::KmlErrorV,
        >(h),
{
    reveal_with_fuel(attr_of, 5);
    reveal_strlit("x");
    reveal_strlit("y");
    reveal_strlit("xunits");
    reveal_strlit("yunits");
    assert("x"@.len() == 1 && "y"@.len() == 1 && "xunits"@.len() == 6 && "yunits"@.len() == 6);
    assert("x"@[0] == 'x' && "y"@[0] == 'y' && "xunits"@[0] == 'x' && "yunits"@[0] == 'y');
    let a = crate::encode::lower_hot_spot_v(h).attrs;
    let a1 = a.drop_first();
    let a2 = a1.drop_first();
    let a3 = a2.drop_first();
    assert(a1 =~= seq![
        ("y"@, h.y),
        ("xunits"@, crate::txt::units_text(h.xunits)),
        ("yunits"@, crate::txt::units_text(h.yunits)),
    ]);
    assert(a2 =~= seq![
        ("xunits"@, crate::txt::units_text(h.xunits)),
        ("yunits"@, crate::txt::units_text(h.yunits)),
    ]);
    assert(a3 =~= seq![("yunits"@, crate::txt::units_text(h.yunits))]);
    assert(attr_of(a, "x"@) == Some(h.x));
    assert(attr_of(a, "y"@) == Some(h.y));
    assert(attr_of(a, "xunits"@) == Some(crate::txt::units_text(h.xunits)));
    assert(attr_of(a, "yunits"@) == Some(crate::txt::units_text(h.yunits)));
    lemma_rt_units(h.xunits);
    lemma_rt_units(h.yunits);
    assert(crate::decode::interpret_hot_spot(crate::encode::lower_hot_spot_v(h))->Ok_0 =~~= h);
}

/// A lowered link decodes back to itself, under either tag the link
/// layout is written with.
#[verifier::rlimit(100)]
pub proof fn lemma_rt_link(tag: Seq<char>, l: crate::views::LinkV)
    requires
        valid_number(l.refresh_interval),
        valid_number(l.view_refresh_time),
        valid_number(l.view_bound_scale),
    ensures
        crate::decode::interpret_link(crate::encode::lower_link_v(tag, l)) == Ok::<
            _,
            crate::views::KmlErrorV,
        >(l),
{
    reveal_strlit("href");
    reveal_strlit("refreshMode");
    reveal_strlit("refreshInterval");
    reveal_strlit("viewRefreshMode");
    reveal_strlit("viewRefreshTime");
    reveal_strlit("viewBoundScale");
    reveal_strlit("viewFormat");
    reveal_strlit("httpQuery");
    assert("href"@.len() == 4 && "refreshMode"@.len() == 11 && "refreshInterval"@.len() == 15
        && "viewRefreshMode"@.len() == 15 && "viewRefreshTime"@.len() == 15
        && "viewBoundScale"@.len() == 14 && "viewFormat"@.len() == 10
        && "httpQuery"@.len() == 9);
    assert("refreshInterval"@[0] == 'r' && "viewRefreshMode"@[0] == 'v'
        && "viewRefreshTime"@[0] == 'v');
    assert("viewRefreshMode"@[11] == 'M' && "viewRefreshTime"@[11] == 'T');
    let s1: Seq<ElementV> = match l.href {
        Some(h) => seq![text_el("href"@, h)],
        None => Seq::empty(),
    };
    let s2: Seq<ElementV> = match l.refresh_mode {
        Some(m) => seq![text_el("refreshMode"@, crate::txt::refresh_mode_text(m))],
        None => Seq::empty(),
    };
    let s3 = seq![text_el("refreshInterval"@, l.refresh_interval)];
    let s4: Seq<ElementV> = match l.view_refresh_mode {
        Some(m) => seq![text_el("viewRefreshMode"@, crate::txt::view_refresh_mode_text(m))],
        None => Seq::empty(),
    };
    let s5 = seq![text_el("viewRefreshTime"@, l.view_refresh_time)];
    let s6 = seq![text_el("viewBoundScale"@, l.view_bound_scale)];
    let s7: Seq<ElementV> = match l.view_format {
        Some(f) => seq![text_el("viewFormat"@, f)],
        None => Seq::empty(),
    };
    let s8: Seq<ElementV> = match l.http_query {
        Some(q) => seq![text_el("httpQuery"@, q)],
        None => Seq::empty(),
    };
    let ch = crate::encode::lower_link_v(tag, l).children;
    let r2 = s2 + (s3 + (s4 + (s5 + (s6 + (s7 + s8)))));
    let r3 = s3 + (s4 + (s5 + (s6 + (s7 + s8))));
    let r4 = s4 + (s5 + (s6 + (s7 + s8)));
    let r5 = s5 + (s6 + (s7 + s8));
    let r6 = s6 + (s7 + s8);
    let r7 = s7 + s8;
    assert(ch =~= s1 + r2);
    // href
    match l.href {
        Some(h) => {
            lemma_scan_hit(s1, r2, "href"@);
        },
        None => {
            lemma_scan_skip(s1, r2, "href"@);
            lemma_scan_skip(s2, r3, "href"@);
            lemma_scan_skip(s3, r4, "href"@);
            lemma_scan_skip(s4, r5, "href"@);
            lemma_scan_skip(s5, r6, "href"@);
            lemma_scan_skip(s6, r7, "href"@);
            lemma_scan_skip(s7, s8, "href"@);
            lemma_first_child_none(s8, "href"@);
        },
    }
    assert(field_text(ch, "href"@) == l.href);
    // refreshMode
    lemma_scan_skip(s1, r2, "refreshMode"@);
    match l.refresh_mode {
        Some(m) => {
            lemma_scan_hit(s2, r3, "refreshMode"@);
            lemma_rt_refresh_mode(m);
        },
        None => {
            lemma_scan_skip(s2, r3, "refreshMode"@);
            lemma_scan_skip(s3, r4, "refreshMode"@);
            lemma_scan_skip(s4, r5, "refreshMode"@);
            lemma_scan_skip(s5, r6, "refreshMode"@);
            lemma_scan_skip(s6, r7, "refreshMode"@);
            lemma_scan_skip(s7, s8, "refreshMode"@);
            lemma_first_child_none(s8, "refreshMode"@);
        },
    }
    assert(crate::decode::refresh_mode_field(ch) == Ok::<_, crate::views::KmlErrorV>(
        l.refresh_mode,
    ));
    // refreshInterval
    lemma_scan_skip(s1, r2, "refreshInterval"@);
    lemma_scan_skip(s2, r3, "refreshInterval"@);
    lemma_scan_hit(s3, r4, "refreshInterval"@);
    assert(crate::decode::num_field(ch, "refreshInterval"@, "4"@) == Ok::<
        _,
        crate::views::KmlErrorV,
    >(l.refresh_interval));
    // viewRefreshMode
    lemma_scan_skip(s1, r2, "viewRefreshMode"@);
    lemma_scan_skip(s2, r3, "viewRefreshMode"@);
    lemma_scan_skip(s3, r4, "viewRefreshMode"@);
    match l.view_refresh_mode {
        Some(m) => {
            lemma_scan_hit(s4, r5, "viewRefreshMode"@);
            lemma_rt_view_refresh_mode(m);
        },
        None => {
            lemma_scan_skip(s4, r5, "viewRefreshMode"@);
            lemma_scan_skip(s5, r6, "viewRefreshMode"@);
            lemma_scan_skip(s6, r7, "viewRefreshMode"@);
            lemma_scan_skip(s7, s8, "viewRefreshMode"@);
            lemma_first_child_none(s8, "viewRefreshMode"@);
        },
    }
    assert(crate::decode::view_refresh_mode_field(ch) == Ok::<_, crate::views::KmlErrorV>(
        l.view_refresh_mode,
    ));
    // viewRefreshTime
    lemma_scan_skip(s1, r2, "viewRefreshTime"@);
    lemma_scan_skip(s2, r3, "viewRefreshTime"@);
    lemma_scan_skip(s3, r4, "viewRefreshTime"@);
    lemma_scan_skip(s4, r5, "viewRefreshTime"@);
    lemma_scan_hit(s5, r6, "viewRefreshTime"@);
    assert(crate::decode::num_field(ch, "viewRefreshTime"@, "4"@) == Ok::<
        _,
        crate::views::KmlErrorV,
    >(l.view_refresh_time));
    // viewBoundScale
    lemma_scan_skip(s1, r2, "viewBoundScale"@);
    lemma_scan_skip(s2, r3, "viewBoundScale"@);
    lemma_scan_skip(s3, r4, "viewBoundScale"@);
    lemma_scan_skip(s4, r5, "viewBoundScale"@);
    lemma_scan_skip(s5, r6, "viewBoundScale"@);
    lemma_scan_hit(s6, r7, "viewBoundScale"@);
    assert(crate::decode::num_field(ch, "viewBoundScale"@, "1"@) == Ok::<
        _,
        crate::views::KmlErrorV,
    >(l.view_bound_scale));
    // viewFormat
    lemma_scan_skip(s1, r2, "viewFormat"@);
    lemma_scan_skip(s2, r3, "viewFormat"@);
    lemma_scan_skip(s3, r4, "viewFormat"@);
    lemma_scan_skip(s4, r5, "viewFormat"@);
    lemma_scan_skip(s5, r6, "viewFormat"@);
    lemma_scan_skip(s6, r7, "viewFormat"@);
    match l.view_format {
        Some(f) => {
            lemma_scan_hit(s7, s8, "viewFormat"@);
        },
        None => {
            lemma_scan_skip(s7, s8, "viewFormat"@);
            lemma_first_child_none(s8, "viewFormat"@);
        },
    }
    assert(field_text(ch, "viewFormat"@) == l.view_format);
    // httpQuery
    lemma_scan_skip(s1, r2, "httpQuery"@);
    lemma_scan_skip(s2, r3, "httpQuery"@);
    lemma_scan_skip(s3, r4, "httpQuery"@);
    lemma_scan_skip(s4, r5, "httpQuery"@);
    lemma_scan_skip(s5, r6, "httpQuery"@);
    lemma_scan_skip(s6, r7, "httpQuery"@);
    lemma_scan_skip(s7, s8, "httpQuery"@);
    match l.http_query {
        Some(q) => {
            assert(first_child(s8, "httpQuery"@) == Some(text_el("httpQuery"@, q)));
        },
        None => {
            lemma_first_child_none(s8, "httpQuery"@);
        },
    }
    assert(field_text(ch, "httpQuery"@) == l.http_query);
    assert(crate::decode::interpret_link(crate::encode::lower_link_v(tag, l))->Ok_0 =~~= l);
}

/// A lowered icon style decodes back to itself.
#[verifier::rlimit(100)]
pub proof fn lemma_rt_icon_style(v: crate::views::IconStyleV)
    requires
        icon_style_ready(v),
    ensures
        crate::decode::interpret_icon_style(crate::encode::lower_icon_style_v(v)) == Ok::<
            _,
            crate::views::KmlErrorV,
        >(v),
{
    reveal_strlit("scale");
    reveal_strlit("heading");
    reveal_strlit("hotSpot");
    reveal_strlit("color");
    reveal_strlit("colorMode");
    reveal_strlit("Icon");
    reveal_strlit("href");
    assert("scale"@.len() == 5 && "heading"@.len() == 7 && "hotSpot"@.len() == 7
        && "color"@.len() == 5 && "colorMode"@.len() == 9 && "Icon"@.len() == 4
        && "href"@.len() == 4);
    assert("scale"@[0] == 's' && "color"@[0] == 'c' && "heading"@[0] == 'h'
        && "hotSpot"@[0] == 'h' && "Icon"@[0] == 'I' && "href"@[0] == 'h');
    assert("heading"@[1] == 'e' && "hotSpot"@[1] == 'o');
    let sc = text_el("scale"@, v.scale);
    let hd = text_el("heading"@, v.heading);
    let hs: Seq<ElementV> = match v.hot_spot {
        Some(h) => seq![crate::encode::lower_hot_spot_v(h)],
        None => Seq::empty(),
    };
    let co = text_el("color"@, v.color);
    let cm = text_el("colorMode"@, crate::txt::color_mode_text(v.color_mode));
    let ic = crate::encode::lower_icon_v(v.icon);
    let ch = crate::encode::lower_icon_style_v(v).children;
    let r2 = seq![hd] + (hs + (seq![co] + (seq![cm] + seq![ic])));
    let r3 = hs + (seq![co] + (seq![cm] + seq![ic]));
    let r4 = seq![co] + (seq![cm] + seq![ic]);
    let r5 = seq![cm] + seq![ic];
    assert(ch =~= seq![sc] + r2);
    // scale, heading
    lemma_scan_hit(seq![sc], r2, "scale"@);
    lemma_scan_skip(seq![sc], r2, "heading"@);
    lemma_scan_hit(seq![hd], r3, "heading"@);
    assert(crate::decode::num_field(ch, "scale"@, "1"@) == Ok::<_, crate::views::KmlErrorV>(
        v.scale,
    ));
    assert(crate::decode::num_field(ch, "heading"@, "0"@) == Ok::<_, crate::views::KmlErrorV>(
        v.heading,
    ));
    // hotSpot
    lemma_scan_skip(seq![sc], r2, "hotSpot"@);
    lemma_scan_skip(seq![hd], r3, "hotSpot"@);
    match v.hot_spot {
        Some(h) => {
            lemma_scan_hit(hs, r4, "hotSpot"@);
            lemma_rt_hot_spot(h);
        },
        None => {
            lemma_scan_skip(hs, r4, "hotSpot"@);
            lemma_scan_skip(seq![co], r5, "hotSpot"@);
            lemma_scan_skip(seq![cm], seq![ic], "hotSpot"@);
            lemma_first_child_none(seq![ic], "hotSpot"@);
        },
    }
    // color, colorMode
    lemma_scan_skip(seq![sc], r2, "color"@);
    lemma_scan_skip(seq![hd], r3, "color"@);
    lemma_scan_skip(hs, r4, "color"@);
    lemma_scan_hit(seq![co], r5, "color"@);
    lemma_scan_skip(seq![sc], r2, "colorMode"@);
    lemma_scan_skip(seq![hd], r3, "colorMode"@);
    lemma_scan_skip(hs, r4, "colorMode"@);
    lemma_scan_skip(seq![co], r5, "colorMode"@);
    lemma_scan_hit(seq![cm], seq![ic], "colorMode"@);
    lemma_rt_cm(v.color_mode);
    // the nested icon
    lemma_scan_skip(seq![sc], r2, "Icon"@);
    lemma_scan_skip(seq![hd], r3, "Icon"@);
    lemma_scan_skip(hs, r4, "Icon"@);
    lemma_scan_skip(seq![co], r5, "Icon"@);
    lemma_scan_skip(seq![cm], seq![ic], "Icon"@);
    assert(first_child(seq![ic], "Icon"@) == Some(ic));
    assert(first_child(ic.children, "href"@) == Some(text_el("href"@, v.icon.href)));
    assert(crate::decode::interpret_icon(ic) =~~= v.icon);
    lemma_rt_id(v.id);
    assert(crate::decode::interpret_icon_style(crate::encode::lower_icon_style_v(v))->Ok_0
        =~~= v);
}

/// A lowered aggregate style decodes back to itself: each sub-style
/// slot is found under its own tag, or stays absent.
#[verifier::rlimit(100)]
pub proof fn lemma_rt_style(v: crate::views::StyleV)
    requires
        style_ready(v),
    ensures
        crate::decode::interpret_style(crate::encode::lower_style_v(v)) == Ok::<
            _,
            crate::views::KmlErrorV,
        >(v),
{
    reveal_strlit("BalloonStyle");
    reveal_strlit("IconStyle");
    reveal_strlit("LabelStyle");
    reveal_strlit("LineStyle");
    reveal_strlit("PolyStyle");
    reveal_strlit("ListStyle");
    assert("BalloonStyle"@.len() == 12 && "IconStyle"@.len() == 9 && "LabelStyle"@.len() == 10
        && "LineStyle"@.len() == 9 && "PolyStyle"@.len() == 9 && "ListStyle"@.len() == 9);
    assert("IconStyle"@[0] == 'I' && "LineStyle"@[0] == 'L' && "PolyStyle"@[0] == 'P'
        && "ListStyle"@[0] == 'L');
    assert("LineStyle"@[2] == 'n' && "ListStyle"@[2] == 's');
    let sb: Seq<ElementV> = match v.balloon {
        Some(b) => seq![crate::encode::lower_balloon_style_v(b)],
        None => Seq::empty(),
    };
    let si: Seq<ElementV> = match v.icon {
        Some(i) => seq![crate::encode::lower_icon_style_v(i)],
        None => Seq::empty(),
    };
    let sa: Seq<ElementV> = match v.label {
        Some(l) => seq![crate::encode::lower_label_style_v(l)],
        None => Seq::empty(),
    };
    let sn: Seq<ElementV> = match v.line {
        Some(l) => seq![crate::encode::lower_line_style_v(l)],
        None => Seq::empty(),
    };
    let sp: Seq<ElementV> = match v.poly {
        Some(p) => seq![crate::encode::lower_poly_style_v(p)],
        None => Seq::empty(),
    };
    let sl: Seq<ElementV> = match v.list {
        Some(l) => seq![crate::encode::lower_list_style_v(l)],
        None => Seq::empty(),
    };
    let ch = crate::encode::lower_style_v(v).children;
    let r2 = si + (sa + (sn + (sp + sl)));
    let r3 = sa + (sn + (sp + sl));
    let r4 = sn + (sp + sl);
    let r5 = sp + sl;
    assert(ch =~= sb + r2);
    // BalloonStyle
    match v.balloon {
        Some(b) => {
            lemma_scan_hit(sb, r2, "BalloonStyle"@);
            lemma_rt_balloon(b);
        },
        None => {
            lemma_scan_skip(sb, r2, "BalloonStyle"@);
            lemma_scan_skip(si, r3, "BalloonStyle"@);
            lemma_scan_skip(sa, r4, "BalloonStyle"@);
            lemma_scan_skip(sn, r5, "BalloonStyle"@);
            lemma_scan_skip(sp, sl, "BalloonStyle"@);
            lemma_first_child_none(sl, "BalloonStyle"@);
        },
    }
    // IconStyle
    lemma_scan_skip(sb, r2, "IconStyle"@);
    match v.icon {
        Some(i) => {
            lemma_scan_hit(si, r3, "IconStyle"@);
            lemma_rt_icon_style(i);
        },
        None => {
            lemma_scan_skip(si, r3, "IconStyle"@);
            lemma_scan_skip(sa, r4, "IconStyle"@);
            lemma_scan_skip(sn, r5, "IconStyle"@);
            lemma_scan_skip(sp, sl, "IconStyle"@);
            lemma_first_child_none(sl, "IconStyle"@);
        },
    }
    // LabelStyle
    lemma_scan_skip(sb, r2, "LabelStyle"@);
    lemma_scan_skip(si, r3, "LabelStyle"@);
    match v.label {
        Some(l) => {
            lemma_scan_hit(sa, r4, "LabelStyle"@);
            lemma_rt_label_style(l);
        },
        None => {
            lemma_scan_skip(sa, r4, "LabelStyle"@);
            lemma_scan_skip(sn, r5, "LabelStyle"@);
            lemma_scan_skip(sp, sl, "LabelStyle"@);
            lemma_first_child_none(sl, "LabelStyle"@);
        },
    }
    // LineStyle
    lemma_scan_skip(sb, r2, "LineStyle"@);
    lemma_scan_skip(si, r3, "LineStyle"@);
    lemma_scan_skip(sa, r4, "LineStyle"@);
    match v.line {
        Some(l) => {
            lemma_scan_hit(sn, r5, "LineStyle"@);
            lemma_rt_line_style(l);
        },
        None => {
            lemma_scan_skip(sn, r5, "LineStyle"@);
            lemma_scan_skip(sp, sl, "LineStyle"@);
            lemma_first_child_none(sl, "LineStyle"@);
        },
    }
    // PolyStyle
    lemma_scan_skip(sb, r2, "PolyStyle"@);
    lemma_scan_skip(si, r3, "PolyStyle"@);
    lemma_scan_skip(sa, r4, "PolyStyle"@);
    lemma_scan_skip(sn, r5, "PolyStyle"@);
    match v.poly {
        Some(p) => {
            lemma_scan_hit(sp, sl, "PolyStyle"@);
            lemma_rt_poly_style(p);
        },
        None => {
            lemma_scan_skip(sp, sl, "PolyStyle"@);
            lemma_first_child_none(sl, "PolyStyle"@);
        },
    }
    // ListStyle
    lemma_scan_skip(sb, r2, "ListStyle"@);
    lemma_scan_skip(si, r3, "ListStyle"@);
    lemma_scan_skip(sa, r4, "ListStyle"@);
    lemma_scan_skip(sn, r5, "ListStyle"@);
    lemma_scan_skip(sp, sl, "ListStyle"@);
    match v.list {
        Some(l) => {
            assert(first_child(sl, "ListStyle"@) == Some(
                crate::encode::lower_list_style_v(l),
            ));
            lemma_rt_list_style(l);
        },
        None => {
            lemma_first_child_none(sl, "ListStyle"@);
        },
    }
    lemma_rt_id(v.id);
    assert(crate::decode::interpret_style(crate::encode::lower_style_v(v))->Ok_0 =~~= v);
}

} // verus!
