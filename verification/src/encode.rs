//! The encoder's schema layer: lowering every typed element to the raw
//! element it serializes as, with the schema's fixed field order, the
//! `"0"`/`"1"` boolean forms, and the tag-attribute/child-element split.
use vstd::prelude::*;

use crate::model::Alias;
use crate::model::AltitudeMode;
use crate::model::BalloonStyle;
use crate::model::Coord;
use crate::model::Element;
use crate::model::Geometry;
use crate::model::Icon;
use crate::model::IconStyle;
use crate::model::Kml;
use crate::model::LabelStyle;
use crate::model::LineString;
use crate::model::LineStyle;
use crate::model::LinearRing;
use crate::model::Link;
use crate::model::LinkTypeIcon;
use crate::model::ListStyle;
use crate::model::Location;
use crate::model::MultiGeometry;
use crate::model::Orientation;
use crate::model::Pair;
use crate::model::Placemark;
use crate::model::Point;
use crate::model::PolyStyle;
use crate::model::Polygon;
use crate::model::ResourceMap;
use crate::model::Scale;
use crate::model::SchemaData;
use crate::model::SimpleArrayData;
use crate::model::SimpleData;
use crate::model::Style;
use crate::model::StyleMap;
use crate::txt::altitude_mode_text;
use crate::txt::bool_str;
use crate::txt::bool_text;
use crate::txt::color_mode_text;
use crate::txt::coord_text;
use crate::txt::coords_string;
use crate::txt::coords_text;
use crate::txt::refresh_mode_text;
use crate::txt::units_text;
use crate::txt::view_refresh_mode_text;
use crate::views::AliasV;
use crate::views::AttrsV;
use crate::views::BalloonStyleV;
use crate::views::CoordV;
use crate::views::ElementV;
use crate::views::GeometryV;
use crate::views::HotSpotV;
use crate::views::IconStyleV;
use crate::views::IconV;
use crate::views::KmlV;
use crate::views::LabelStyleV;
use crate::views::LineStringV;
use crate::views::LineStyleV;
use crate::views::LinearRingV;
use crate::views::LinkV;
use crate::views::ListStyleV;
use crate::views::LocationV;
use crate::views::MultiGeometryV;
use crate::views::OrientationV;
use crate::views::PairV;
use crate::views::PlacemarkV;
use crate::views::PointV;
use crate::views::PolyStyleV;
use crate::views::PolygonV;
use crate::views::ResourceMapV;
use crate::views::ScaleV;
use crate::views::SchemaDataV;
use crate::views::SimpleArrayDataV;
use crate::views::SimpleDataV;
use crate::views::StyleMapV;
use crate::views::StyleV;
use crate::views::elems_view;
use crate::views::lemma_elems_view;

verus! {

// -------------------------------------------------------------------
// Small spec builders.
// -------------------------------------------------------------------

/// A leaf element holding only text.
pub open spec fn text_el(name: Seq<char>, content: Seq<char>) -> ElementV {
    ElementV { name, attrs: Seq::empty(), content: Some(content), children: Seq::empty() }
}

/// An element with children only.
pub open spec fn node_el(name: Seq<char>, attrs: AttrsV, children: Seq<ElementV>) -> ElementV {
    ElementV { name, attrs, content: None, children }
}

/// Zero-or-one child.
pub open spec fn opt_child(o: Option<ElementV>) -> Seq<ElementV> {
    match o {
        Some(e) => seq![e],
        None => Seq::empty(),
    }
}

/// The `id` tag-attribute every style element carries.
pub open spec fn id_attrs(id: Seq<char>) -> AttrsV {
    seq![("id"@, id)]
}

// -------------------------------------------------------------------
// The per-type lowerings, in the schema's fixed field order.
// -------------------------------------------------------------------

pub open spec fn lower_scale_v(s: ScaleV) -> ElementV {
    node_el(
        "Scale"@,
        Seq::empty(),
        seq![text_el("x"@, s.x), text_el("y"@, s.y), text_el("z"@, s.z)],
    )
}

pub open spec fn lower_orientation_v(o: OrientationV) -> ElementV {
    node_el(
        "Orientation"@,
        Seq::empty(),
        seq![
            text_el("roll"@, o.roll),
            text_el("tilt"@, o.tilt),
            text_el("heading"@, o.heading),
        ],
    )
}

pub open spec fn lower_location_v(l: LocationV) -> ElementV {
    node_el(
        "Location"@,
        Seq::empty(),
        seq![
            text_el("longitude"@, l.longitude),
            text_el("latitude"@, l.latitude),
            text_el("altitude"@, l.altitude),
        ],
    )
}

pub open spec fn lower_point_v(p: PointV) -> ElementV {
    node_el(
        "Point"@,
        Seq::empty(),
        seq![
            text_el("extrude"@, bool_text(p.extrude)),
            text_el("altitudeMode"@, altitude_mode_text(p.altitude_mode)),
            text_el("coordinates"@, coord_text(p.coord)),
        ],
    )
}

/// The shared geometry properties, in their fixed order:
/// extrude, tessellate (where the type has it), altitudeMode,
/// coordinates (omitted when empty).
pub open spec fn geom_props_children(
    extrude: bool,
    tessellate: Option<bool>,
    am: AltitudeMode,
    coords: Seq<CoordV>,
) -> Seq<ElementV> {
    seq![text_el("extrude"@, bool_text(extrude))] + (match tessellate {
        Some(t) => seq![text_el("tessellate"@, bool_text(t))],
        None => Seq::empty(),
    }) + seq![text_el("altitudeMode"@, altitude_mode_text(am))] + (if coords.len() == 0 {
        Seq::<ElementV>::empty()
    } else {
        seq![text_el("coordinates"@, coords_text(coords))]
    })
}

pub open spec fn lower_line_string_v(l: LineStringV) -> ElementV {
    node_el(
        "LineString"@,
        Seq::empty(),
        geom_props_children(l.extrude, Some(l.tessellate), l.altitude_mode, l.coords),
    )
}

pub open spec fn lower_linear_ring_v(l: LinearRingV) -> ElementV {
    node_el(
        "LinearRing"@,
        Seq::empty(),
        geom_props_children(l.extrude, Some(l.tessellate), l.altitude_mode, l.coords),
    )
}

pub open spec fn lower_polygon_v(p: PolygonV) -> ElementV {
    node_el(
        "Polygon"@,
        p.attrs,
        geom_props_children(p.extrude, Some(p.tessellate), p.altitude_mode, Seq::empty()) + seq![
            node_el("outerBoundaryIs"@, Seq::empty(), seq![lower_linear_ring_v(p.outer)]),
        ] + (if p.inner.len() == 0 {
            Seq::<ElementV>::empty()
        } else {
            seq![
                node_el(
                    "innerBoundaryIs"@,
                    Seq::empty(),
                    p.inner.map_values(|r: LinearRingV| lower_linear_ring_v(r)),
                ),
            ]
        }),
    )
}

pub open spec fn lower_geometry_v(g: GeometryV) -> ElementV
    decreases g,
{
    match g {
        GeometryV::Point(p) => lower_point_v(p),
        GeometryV::LineString(l) => lower_line_string_v(l),
        GeometryV::LinearRing(l) => lower_linear_ring_v(l),
        GeometryV::Polygon(p) => lower_polygon_v(p),
        GeometryV::MultiGeometry(m) => node_el(
            "MultiGeometry"@,
            m.attrs,
            lower_geoms_v(m.geometries),
        ),
    }
}

pub open spec fn lower_geoms_v(s: Seq<GeometryV>) -> Seq<ElementV>
    decreases s,
{
    if s.len() == 0 {
        Seq::empty()
    } else {
        seq![lower_geometry_v(s[0])] + lower_geoms_v(s.drop_first())
    }
}

pub open spec fn lower_placemark_v(p: PlacemarkV) -> ElementV {
    node_el(
        "Placemark"@,
        Seq::empty(),
        (match p.name {
            Some(n) => seq![text_el("name"@, n)],
            None => Seq::<ElementV>::empty(),
        }) + (match p.description {
            Some(d) => seq![text_el("description"@, d)],
            None => Seq::<ElementV>::empty(),
        }) + p.children + (match p.geometry {
            Some(g) => seq![lower_geometry_v(g)],
            None => Seq::<ElementV>::empty(),
        }),
    )
}

pub open spec fn lower_icon_v(i: IconV) -> ElementV {
    node_el("Icon"@, Seq::empty(), seq![text_el("href"@, i.href)])
}

pub open spec fn lower_balloon_style_v(b: BalloonStyleV) -> ElementV {
    node_el(
        "BalloonStyle"@,
        id_attrs(b.id),
        (match b.bg_color {
            Some(c) => seq![text_el("bgColor"@, c)],
            None => Seq::<ElementV>::empty(),
        }) + seq![text_el("textColor"@, b.text_color)] + (match b.text {
            Some(t) => seq![text_el("text"@, t)],
            None => Seq::<ElementV>::empty(),
        }) + (if b.display {
            Seq::<ElementV>::empty()
        } else {
            seq![text_el("displayMode"@, "hide"@)]
        }),
    )
}

/// The hot-spot renders as an empty element carrying tag attributes.
pub open spec fn lower_hot_spot_v(h: HotSpotV) -> ElementV {
    node_el(
        "hotSpot"@,
        seq![
            ("x"@, h.x),
            ("y"@, h.y),
            ("xunits"@, units_text(h.xunits)),
            ("yunits"@, units_text(h.yunits)),
        ],
        Seq::empty(),
    )
}

pub open spec fn lower_icon_style_v(i: IconStyleV) -> ElementV {
    node_el(
        "IconStyle"@,
        id_attrs(i.id),
        seq![text_el("scale"@, i.scale), text_el("heading"@, i.heading)] + (match i.hot_spot {
            Some(h) => seq![lower_hot_spot_v(h)],
            None => Seq::<ElementV>::empty(),
        }) + seq![
            text_el("color"@, i.color),
            text_el("colorMode"@, color_mode_text(i.color_mode)),
            lower_icon_v(i.icon),
        ],
    )
}

pub open spec fn lower_label_style_v(l: LabelStyleV) -> ElementV {
    node_el(
        "LabelStyle"@,
        id_attrs(l.id),
        seq![
            text_el("color"@, l.color),
            text_el("colorMode"@, color_mode_text(l.color_mode)),
            text_el("scale"@, l.scale),
        ],
    )
}

pub open spec fn lower_line_style_v(l: LineStyleV) -> ElementV {
    node_el(
        "LineStyle"@,
        id_attrs(l.id),
        seq![
            text_el("color"@, l.color),
            text_el("colorMode"@, color_mode_text(l.color_mode)),
            text_el("width"@, l.width),
        ],
    )
}

pub open spec fn lower_poly_style_v(p: PolyStyleV) -> ElementV {
    node_el(
        "PolyStyle"@,
        id_attrs(p.id),
        seq![
            text_el("color"@, p.color),
            text_el("colorMode"@, color_mode_text(p.color_mode)),
            text_el("fill"@, bool_text(p.fill)),
            text_el("outline"@, bool_text(p.outline)),
        ],
    )
}

pub open spec fn lower_list_style_v(l: ListStyleV) -> ElementV {
    node_el(
        "ListStyle"@,
        id_attrs(l.id),
        seq![
            text_el("bgColor"@, l.bg_color),
            text_el("maxSnippetLines"@, l.max_snippet_lines),
        ],
    )
}

pub open spec fn lower_style_v(s: StyleV) -> ElementV {
    node_el(
        "Style"@,
        id_attrs(s.id),
        opt_child(
            match s.balloon {
                Some(b) => Some(lower_balloon_style_v(b)),
                None => None,
            },
        ) + opt_child(
            match s.icon {
                Some(i) => Some(lower_icon_style_v(i)),
                None => None,
            },
        ) + opt_child(
            match s.label {
                Some(l) => Some(lower_label_style_v(l)),
                None => None,
            },
        ) + opt_child(
            match s.line {
                Some(l) => Some(lower_line_style_v(l)),
                None => None,
            },
        ) + opt_child(
            match s.poly {
                Some(p) => Some(lower_poly_style_v(p)),
                None => None,
            },
        ) + opt_child(
            match s.list {
                Some(l) => Some(lower_list_style_v(l)),
                None => None,
            },
        ),
    )
}

pub open spec fn lower_pair_v(p: PairV) -> ElementV {
    node_el(
        "Pair"@,
        p.attrs,
        seq![text_el("key"@, p.key), text_el("styleUrl"@, p.style_url)],
    )
}

pub open spec fn lower_style_map_v(s: StyleMapV) -> ElementV {
    node_el("StyleMap"@, id_attrs(s.id), s.pairs.map_values(|p: PairV| lower_pair_v(p)))
}

/// `<Link>` and the link-shaped `<Icon>` share one field layout.
pub open spec fn lower_link_v(tag: Seq<char>, l: LinkV) -> ElementV {
    node_el(
        tag,
        l.attrs,
        (match l.href {
            Some(h) => seq![text_el("href"@, h)],
            None => Seq::<ElementV>::empty(),
        }) + (match l.refresh_mode {
            Some(m) => seq![text_el("refreshMode"@, refresh_mode_text(m))],
            None => Seq::<ElementV>::empty(),
        }) + seq![text_el("refreshInterval"@, l.refresh_interval)] + (match l.view_refresh_mode {
            Some(m) => seq![text_el("viewRefreshMode"@, view_refresh_mode_text(m))],
            None => Seq::<ElementV>::empty(),
        }) + seq![
            text_el("viewRefreshTime"@, l.view_refresh_time),
            text_el("viewBoundScale"@, l.view_bound_scale),
        ] + (match l.view_format {
            Some(f) => seq![text_el("viewFormat"@, f)],
            None => Seq::<ElementV>::empty(),
        }) + (match l.http_query {
            Some(q) => seq![text_el("httpQuery"@, q)],
            None => Seq::<ElementV>::empty(),
        }),
    )
}

pub open spec fn lower_alias_v(a: AliasV) -> ElementV {
    node_el(
        "Alias"@,
        a.attrs,
        (match a.target_href {
            Some(h) => seq![text_el("targetHref"@, h)],
            None => Seq::<ElementV>::empty(),
        }) + (match a.source_href {
            Some(h) => seq![text_el("sourceHref"@, h)],
            None => Seq::<ElementV>::empty(),
        }),
    )
}

pub open spec fn lower_resource_map_v(r: ResourceMapV) -> ElementV {
    node_el("ResourceMap"@, r.attrs, r.aliases.map_values(|a: AliasV| lower_alias_v(a)))
}

pub open spec fn lower_simple_data_v(d: SimpleDataV) -> ElementV {
    ElementV { name: "SimpleData"@, attrs: d.attrs, content: Some(d.value), children: Seq::empty() }
}

pub open spec fn lower_simple_array_data_v(d: SimpleArrayDataV) -> ElementV {
    node_el(
        "SimpleArrayData"@,
        d.attrs,
        d.values.map_values(|v: Seq<char>| text_el("value"@, v)),
    )
}

pub open spec fn lower_schema_data_v(s: SchemaDataV) -> ElementV {
    node_el(
        "SchemaData"@,
        s.attrs,
        s.data.map_values(|d: SimpleDataV| lower_simple_data_v(d)) + s.arrays.map_values(
            |d: SimpleArrayDataV| lower_simple_array_data_v(d),
        ),
    )
}

/// The whole dispatch: the raw element any node serializes as.
pub open spec fn lower_v(k: KmlV) -> ElementV
    decreases k,
{
    match k {
        KmlV::KmlDocument(d) => node_el("kml"@, d.attrs, lower_seq_v(d.elements)),
        KmlV::Scale(s) => lower_scale_v(s),
        KmlV::Orientation(o) => lower_orientation_v(o),
        KmlV::Point(p) => lower_point_v(p),
        KmlV::Location(l) => lower_location_v(l),
        KmlV::LineString(l) => lower_line_string_v(l),
        KmlV::LinearRing(l) => lower_linear_ring_v(l),
        KmlV::Polygon(p) => lower_polygon_v(p),
        KmlV::MultiGeometry(m) => node_el("MultiGeometry"@, m.attrs, lower_geoms_v(m.geometries)),
        KmlV::Placemark(p) => lower_placemark_v(p),
        KmlV::Style(s) => lower_style_v(s),
        KmlV::StyleMap(s) => lower_style_map_v(s),
        KmlV::Pair(p) => lower_pair_v(p),
        KmlV::BalloonStyle(b) => lower_balloon_style_v(b),
        KmlV::IconStyle(i) => lower_icon_style_v(i),
        KmlV::Icon(i) => lower_icon_v(i),
        KmlV::LabelStyle(l) => lower_label_style_v(l),
        KmlV::LineStyle(l) => lower_line_style_v(l),
        KmlV::PolyStyle(p) => lower_poly_style_v(p),
        KmlV::ListStyle(l) => lower_list_style_v(l),
        KmlV::LinkTypeIcon(i) => lower_link_v("Icon"@, i),
        KmlV::Link(l) => lower_link_v("Link"@, l),
        KmlV::ResourceMap(r) => lower_resource_map_v(r),
        KmlV::Alias(a) => lower_alias_v(a),
        KmlV::SchemaData(s) => lower_schema_data_v(s),
        KmlV::SimpleArrayData(s) => lower_simple_array_data_v(s),
        KmlV::SimpleData(s) => lower_simple_data_v(s),
        KmlV::Document { attrs, elements } => node_el("Document"@, attrs, lower_seq_v(elements)),
        KmlV::Folder { attrs, elements } => node_el("Folder"@, attrs, lower_seq_v(elements)),
        KmlV::Element(e) => e,
    }
}

/// The raw elements of a container's child list.
pub open spec fn lower_seq_v(s: Seq<KmlV>) -> Seq<ElementV>
    decreases s,
{
    if s.len() == 0 {
        Seq::empty()
    } else {
        seq![lower_v(s[0])] + lower_seq_v(s.drop_first())
    }
}

// -------------------------------------------------------------------
// Executable lowering.
// -------------------------------------------------------------------

/// `elems_view` commutes with push.
pub proof fn lemma_elems_view_push(s: Seq<Element>, e: Element)
    ensures
        elems_view(s.push(e)) == elems_view(s).push(crate::views::elem_view(e)),
{
    lemma_elems_view(s.push(e));
    lemma_elems_view(s);
    let l = elems_view(s.push(e));
    let r = elems_view(s).push(crate::views::elem_view(e));
    assert forall|i: int| 0 <= i < l.len() implies l[i] == r[i] by {
        assert(l[i] == crate::views::elem_view(s.push(e)[i]));
        if i < s.len() {
            assert(s.push(e)[i] == s[i]);
            assert(elems_view(s)[i] == crate::views::elem_view(s[i]));
        } else {
            assert(s.push(e)[i] == e);
        }
    }
    assert(l =~= r);
}

/// Append one lowered child.
fn push_child(kids: &mut Vec<Element>, e: Element)
    ensures
        elems_view(final(kids)@) == elems_view(old(kids)@).push(e@),
{
    proof {
        lemma_elems_view_push(kids@, e);
    }
    kids.push(e);
}

/// A leaf child holding only text.
fn text_child(name: &str, content: &str) -> (r: Element)
    ensures
        r@ == text_el(name@, content@),
{
    let r = Element {
        name: name.to_owned(),
        attrs: Vec::new(),
        content: Some(content.to_owned()),
        children: Vec::new(),
    };
    proof {
        assert(r.attrs.deep_view() =~= Seq::<(Seq<char>, Seq<char>)>::empty());
        assert(elems_view(r.children@) =~= Seq::<ElementV>::empty());
        assert(r@.attrs =~= (text_el(name@, content@)).attrs);
        assert(r@.children =~= (text_el(name@, content@)).children);
        assert(r@ =~= text_el(name@, content@));
    }
    r
}

/// Copy an attribute list.
pub fn clone_attrs(a: &Vec<(String, String)>) -> (r: Vec<(String, String)>)
    ensures
        r.deep_view() == a.deep_view(),
{
    let mut r: Vec<(String, String)> = Vec::new();
    let mut i: usize = 0;
    while i < a.len()
        invariant
            i <= a.len(),
            r@.len() == i,
            r.deep_view() == a.deep_view().take(i as int),
        decreases a.len() - i,
    {
        let p = &a[i];
        let ghost prev_vec = r@;
        let c = (p.0.clone(), p.1.clone());
        let ghost cv = c;
        r.push(c);
        i = i + 1;
        proof {
            assert(r@ == prev_vec.push(cv));
            assert(prev_vec.len() == i - 1);
            assert forall|q: int| 0 <= q < r.deep_view().len() implies r.deep_view()[q]
                == a.deep_view().take(i as int)[q] by {
                if q < i - 1 {
                    assert(r@[q] == prev_vec.push(cv)[q]);
                    assert(prev_vec.push(cv)[q] == prev_vec[q]);
                } else {
                    assert(r@[q] == prev_vec.push(cv)[q]);
                    assert(prev_vec.push(cv)[q] == cv);
                    assert(cv.0 == a@[i - 1].0 && cv.1 == a@[i - 1].1);
                }
            }
            assert(r.deep_view() =~= a.deep_view().take(i as int));
        }
    }
    proof {
        assert(a.deep_view().take(a@.len() as int) =~= a.deep_view());
    }
    r
}

/// The singleton `id` attribute list.
fn make_id_attrs(id: &String) -> (r: Vec<(String, String)>)
    ensures
        r.deep_view() == id_attrs(id@),
{
    let mut r: Vec<(String, String)> = Vec::new();
    r.push(("id".to_owned(), id.clone()));
    proof {
        assert(r.deep_view() =~= id_attrs(id@));
    }
    r
}

/// A childless element with attributes.
fn empty_attrs() -> (r: Vec<(String, String)>)
    ensures
        r.deep_view() == Seq::<(Seq<char>, Seq<char>)>::empty(),
{
    let r: Vec<(String, String)> = Vec::new();
    proof {
        assert(r.deep_view() =~= Seq::<(Seq<char>, Seq<char>)>::empty());
    }
    r
}

/// Assemble an element without text content.
fn node(name: &str, attrs: Vec<(String, String)>, kids: Vec<Element>) -> (r: Element)
    ensures
        r@ == node_el(name@, attrs.deep_view(), elems_view(kids@)),
{
    let r = Element { name: name.to_owned(), attrs, content: None, children: kids };
    proof {
        assert(r@.attrs =~= (node_el(r.name@, r.attrs.deep_view(), elems_view(r.children@))).attrs);
        assert(r@.children =~= (node_el(r.name@, r.attrs.deep_view(), elems_view(r.children@))).children);
        assert(r@ =~= node_el(r.name@, r.attrs.deep_view(), elems_view(r.children@)));
    }
    r
}

pub fn lower_scale(s: &Scale) -> (r: Element)
    ensures
        r@ == lower_scale_v(s@),
{
    let mut kids: Vec<Element> = Vec::new();
    push_child(&mut kids, text_child("x", s.x.as_str()));
    push_child(&mut kids, text_child("y", s.y.as_str()));
    push_child(&mut kids, text_child("z", s.z.as_str()));
    let r = node("Scale", empty_attrs(), kids);
    proof {
        assert(r@.attrs =~= (lower_scale_v(s@)).attrs);
        assert(r@.children =~= (lower_scale_v(s@)).children);
        assert(r@ =~= lower_scale_v(s@));
    }
    r
}

pub fn lower_orientation(o: &Orientation) -> (r: Element)
    ensures
        r@ == lower_orientation_v(o@),
{
    let mut kids: Vec<Element> = Vec::new();
    push_child(&mut kids, text_child("roll", o.roll.as_str()));
    push_child(&mut kids, text_child("tilt", o.tilt.as_str()));
    push_child(&mut kids, text_child("heading", o.heading.as_str()));
    let r = node("Orientation", empty_attrs(), kids);
    proof {
        assert(r@.attrs =~= (lower_orientation_v(o@)).attrs);
        assert(r@.children =~= (lower_orientation_v(o@)).children);
        assert(r@ =~= lower_orientation_v(o@));
    }
    r
}

pub fn lower_location(l: &Location) -> (r: Element)
    ensures
        r@ == lower_location_v(l@),
{
    let mut kids: Vec<Element> = Vec::new();
    push_child(&mut kids, text_child("longitude", l.longitude.as_str()));
    push_child(&mut kids, text_child("latitude", l.latitude.as_str()));
    push_child(&mut kids, text_child("altitude", l.altitude.as_str()));
    let r = node("Location", empty_attrs(), kids);
    proof {
        assert(r@.attrs =~= (lower_location_v(l@)).attrs);
        assert(r@.children =~= (lower_location_v(l@)).children);
        assert(r@ =~= lower_location_v(l@));
    }
    r
}

pub fn lower_point(p: &Point) -> (r: Element)
    ensures
        r@ == lower_point_v(p@),
{
    let mut kids: Vec<Element> = Vec::new();
    push_child(&mut kids, text_child("extrude", bool_str(p.extrude)));
    push_child(&mut kids, text_child("altitudeMode", p.altitude_mode.as_str()));
    let coord = p.coord.to_text();
    push_child(&mut kids, text_child("coordinates", coord.as_str()));
    let r = node("Point", empty_attrs(), kids);
    proof {
        assert(r@.attrs =~= (lower_point_v(p@)).attrs);
        assert(r@.children =~= (lower_point_v(p@)).children);
        assert(r@ =~= lower_point_v(p@));
    }
    r
}

/// The shared geometry properties, appended in their fixed order.
fn push_geom_props(
    kids: &mut Vec<Element>,
    extrude: bool,
    tessellate: Option<bool>,
    am: &AltitudeMode,
    coords: &Vec<Coord>,
)
    ensures
        elems_view(final(kids)@) == elems_view(old(kids)@) + geom_props_children(
            extrude,
            tessellate,
            *am,
            crate::views::coords_view(coords@),
        ),
{
    push_child(kids, text_child("extrude", bool_str(extrude)));
    if let Some(t) = tessellate {
        push_child(kids, text_child("tessellate", bool_str(t)));
    }
    push_child(kids, text_child("altitudeMode", am.as_str()));
    if coords.len() > 0 {
        let text = coords_string(coords);
        push_child(kids, text_child("coordinates", text.as_str()));
        proof {
            assert(elems_view(kids@) =~~= elems_view(old(kids)@) + geom_props_children(
                extrude,
                tessellate,
                *am,
                crate::views::coords_view(coords@),
            ));
        }
    } else {
        proof {
            assert(crate::views::coords_view(coords@).len() == 0);
            assert(elems_view(kids@) =~~= elems_view(old(kids)@) + geom_props_children(
                extrude,
                tessellate,
                *am,
                crate::views::coords_view(coords@),
            ));
        }
    }
}

pub fn lower_line_string(l: &LineString) -> (r: Element)
    ensures
        r@ == lower_line_string_v(l@),
{
    let mut kids: Vec<Element> = Vec::new();
    push_geom_props(&mut kids, l.extrude, Some(l.tessellate), &l.altitude_mode, &l.coords);
    let r = node("LineString", empty_attrs(), kids);
    proof {
        assert(r@.attrs =~= (lower_line_string_v(l@)).attrs);
        assert(r@.children =~= (lower_line_string_v(l@)).children);
        assert(r@ =~= lower_line_string_v(l@));
    }
    r
}

pub fn lower_linear_ring(l: &LinearRing) -> (r: Element)
    ensures
        r@ == lower_linear_ring_v(l@),
{
    let mut kids: Vec<Element> = Vec::new();
    push_geom_props(&mut kids, l.extrude, Some(l.tessellate), &l.altitude_mode, &l.coords);
    let r = node("LinearRing", empty_attrs(), kids);
    proof {
        assert(r@.attrs =~= (lower_linear_ring_v(l@)).attrs);
        assert(r@.children =~= (lower_linear_ring_v(l@)).children);
        assert(r@ =~= lower_linear_ring_v(l@));
    }
    r
}

pub fn lower_polygon(p: &Polygon) -> (r: Element)
    ensures
        r@ == lower_polygon_v(p@),
{
    let mut kids: Vec<Element> = Vec::new();
    let no_coords: Vec<Coord> = Vec::new();
    proof {
        assert(crate::views::coords_view(no_coords@) =~= Seq::<CoordV>::empty());
    }
    push_geom_props(&mut kids, p.extrude, Some(p.tessellate), &p.altitude_mode, &no_coords);
    let mut outer_kids: Vec<Element> = Vec::new();
    push_child(&mut outer_kids, lower_linear_ring(&p.outer));
    push_child(&mut kids, node("outerBoundaryIs", empty_attrs(), outer_kids));
    if p.inner.len() > 0 {
        let mut ring_kids: Vec<Element> = Vec::new();
        let mut i: usize = 0;
        while i < p.inner.len()
            invariant
                i <= p.inner.len(),
                elems_view(ring_kids@) == p.inner@.take(i as int).map_values(
                    |r: LinearRing| lower_linear_ring_v(r@),
                ),
            decreases p.inner.len() - i,
        {
            push_child(&mut ring_kids, lower_linear_ring(&p.inner[i]));
            i = i + 1;
            proof {
                assert(elems_view(ring_kids@) =~= p.inner@.take(i as int).map_values(
                    |r: LinearRing| lower_linear_ring_v(r@),
                ));
            }
        }
        push_child(&mut kids, node("innerBoundaryIs", empty_attrs(), ring_kids));
        proof {
            assert(p.inner@.take(p.inner@.len() as int) =~= p.inner@);
            assert(p.inner@.map_values(|r: LinearRing| lower_linear_ring_v(r@)) =~=
                crate::views::rings_view(p.inner@).map_values(
                    |r: LinearRingV| lower_linear_ring_v(r),
                ));
        }
    } else {
        proof {
            assert(crate::views::rings_view(p.inner@).len() == 0);
        }
    }
    let r = node("Polygon", clone_attrs(&p.attrs), kids);
    proof {
        assert(r@.attrs =~= (lower_polygon_v(p@)).attrs);
        assert(r@.children =~= (lower_polygon_v(p@)).children);
        assert(r@ =~= lower_polygon_v(p@));
    }
    r
}

#[verifier::loop_isolation(false)]
pub fn lower_geometry(g: &Geometry) -> (r: Element)
    ensures
        r@ == lower_geometry_v(g@),
    decreases *g,
{
    match g {
        Geometry::Point(p) => lower_point(p),
        Geometry::LineString(l) => lower_line_string(l),
        Geometry::LinearRing(l) => lower_linear_ring(l),
        Geometry::Polygon(p) => lower_polygon(p),
        Geometry::MultiGeometry(m) => {
            let mut kids: Vec<Element> = Vec::new();
            let ghost gv = crate::views::geoms_view(m.geometries@);
            proof {
                crate::views::lemma_geoms_view(m.geometries@);
                lemma_lower_geoms_take(gv, 0);
            }
            let mut i: usize = 0;
            while i < m.geometries.len()
                invariant
                    i <= m.geometries.len(),
                    gv == crate::views::geoms_view(m.geometries@),
                    gv.len() == m.geometries@.len(),
                    forall|q: int|
                        0 <= q < m.geometries@.len() ==> gv[q] == crate::views::geometry_view(
                            #[trigger] m.geometries@[q],
                        ),
                    elems_view(kids@) == lower_geoms_v(gv.take(i as int)),
                decreases m.geometries.len() - i,
            {
                proof {
                    assert(decreases_to!(*g => (*g)->MultiGeometry_0));
                    assert((*g)->MultiGeometry_0 == *m);
                    assert(decreases_to!(*m => m.geometries));
                    assert(decreases_to!(m.geometries => m.geometries@[i as int]));
                }
                let child = lower_geometry(&m.geometries[i]);
                push_child(&mut kids, child);
                i = i + 1;
                proof {
                    lemma_lower_geoms_take(gv, i as int);
                }
            }
            proof {
                assert(gv.take(m.geometries@.len() as int) =~= gv);
            }
            let r = node("MultiGeometry", clone_attrs(&m.attrs), kids);
            proof {
                assert(r@.attrs =~= (lower_geometry_v(g@)).attrs);
        assert(r@.children =~= (lower_geometry_v(g@)).children);
        assert(r@ =~= lower_geometry_v(g@));
            }
            r
        },
    }
}

/// One more lowered geometry on the end of a prefix.
proof fn lemma_lower_geoms_take(s: Seq<GeometryV>, i: int)
    requires
        0 <= i <= s.len(),
    ensures
        i == 0 ==> lower_geoms_v(s.take(0)) == Seq::<ElementV>::empty(),
        i > 0 ==> lower_geoms_v(s.take(i)) == lower_geoms_v(s.take(i - 1)).push(
            lower_geometry_v(s[i - 1]),
        ),
    decreases i,
{
    if i == 0 {
        assert(s.take(0) =~= Seq::<GeometryV>::empty());
    } else if i == 1 {
        assert(s.take(1) =~= seq![s[0]]);
        assert(s.take(0) =~= Seq::<GeometryV>::empty());
        assert(seq![s[0]].drop_first() =~= Seq::<GeometryV>::empty());
        assert(lower_geoms_v(s.take(1)) =~= lower_geoms_v(s.take(0)).push(lower_geometry_v(s[0])));
    } else {
        assert(s.take(i)[0] == s[0]);
        assert(s.take(i).drop_first() =~= s.drop_first().take(i - 1));
        assert(s.take(i - 1)[0] == s[0]);
        assert(s.take(i - 1).drop_first() =~= s.drop_first().take(i - 2));
        lemma_lower_geoms_take(s.drop_first(), i - 1);
        assert(lower_geoms_v(s.take(i)) =~= lower_geoms_v(s.take(i - 1)).push(
            lower_geometry_v(s[i - 1]),
        ));
    }
}

pub fn lower_multi_geometry(m: &MultiGeometry) -> (r: Element)
    ensures
        r@ == node_el("MultiGeometry"@, m@.attrs, lower_geoms_v(m@.geometries)),
{
    let mut kids: Vec<Element> = Vec::new();
    let ghost gv = crate::views::geoms_view(m.geometries@);
    proof {
        crate::views::lemma_geoms_view(m.geometries@);
        lemma_lower_geoms_take(gv, 0);
    }
    let mut i: usize = 0;
    while i < m.geometries.len()
        invariant
            i <= m.geometries.len(),
            gv == crate::views::geoms_view(m.geometries@),
            gv.len() == m.geometries@.len(),
            forall|q: int|
                0 <= q < m.geometries@.len() ==> gv[q] == crate::views::geometry_view(
                    #[trigger] m.geometries@[q],
                ),
            elems_view(kids@) == lower_geoms_v(gv.take(i as int)),
        decreases m.geometries.len() - i,
    {
        let child = lower_geometry(&m.geometries[i]);
        push_child(&mut kids, child);
        i = i + 1;
        proof {
            lemma_lower_geoms_take(gv, i as int);
        }
    }
    proof {
        assert(gv.take(m.geometries@.len() as int) =~= gv);
    }
    let r = node("MultiGeometry", clone_attrs(&m.attrs), kids);
    proof {
        assert(r@.attrs =~= (node_el("MultiGeometry"@, m@.attrs, lower_geoms_v(m@.geometries))).attrs);
        assert(r@.children =~= (node_el("MultiGeometry"@, m@.attrs, lower_geoms_v(m@.geometries))).children);
        assert(r@ =~= node_el("MultiGeometry"@, m@.attrs, lower_geoms_v(m@.geometries)));
    }
    r
}

/// A deep copy of a raw element.
#[verifier::loop_isolation(false)]
pub fn clone_element(e: &Element) -> (r: Element)
    ensures
        r@ == e@,
    decreases *e,
{
    let mut kids: Vec<Element> = Vec::new();
    let mut i: usize = 0;
    proof {
        lemma_elems_view(e.children@);
        assert(elems_view(kids@) =~= elems_view(e.children@).take(0));
    }
    while i < e.children.len()
        invariant
            i <= e.children.len(),
            elems_view(kids@) == elems_view(e.children@).take(i as int),
        decreases e.children.len() - i,
    {
        proof {
            assert(decreases_to!(*e => e.children));
            assert(decreases_to!(e.children => e.children@[i as int]));
        }
        let c = clone_element(&e.children[i]);
        push_child(&mut kids, c);
        i = i + 1;
        proof {
            assert(elems_view(kids@) =~= elems_view(e.children@).take(i as int));
        }
    }
    proof {
        assert(elems_view(e.children@).take(e.children@.len() as int) =~= elems_view(
            e.children@,
        ));
    }
    let content: Option<String> = match &e.content {
        Some(c) => Some(c.clone()),
        None => None,
    };
    let r = Element { name: e.name.clone(), attrs: clone_attrs(&e.attrs), content, children: kids };
    proof {
        assert(r@.attrs =~= e@.attrs);
        assert(r@.children =~= e@.children);
        assert(r@ =~= e@);
    }
    r
}

pub fn lower_placemark(p: &Placemark) -> (r: Element)
    ensures
        r@ == lower_placemark_v(p@),
{
    let ghost seg1: Seq<ElementV> = match p@.name {
        Some(n) => seq![text_el("name"@, n)],
        None => Seq::<ElementV>::empty(),
    };
    let ghost seg2: Seq<ElementV> = match p@.description {
        Some(d) => seq![text_el("description"@, d)],
        None => Seq::<ElementV>::empty(),
    };
    let ghost seg4: Seq<ElementV> = match p@.geometry {
        Some(g) => seq![lower_geometry_v(g)],
        None => Seq::<ElementV>::empty(),
    };
    let mut kids: Vec<Element> = Vec::new();
    if let Some(n) = &p.name {
        push_child(&mut kids, text_child("name", n.as_str()));
    }
    proof {
        assert(elems_view(kids@) =~= seg1);
    }
    if let Some(d) = &p.description {
        push_child(&mut kids, text_child("description", d.as_str()));
    }
    proof {
        assert(elems_view(kids@) =~= seg1 + seg2);
    }
    let mut i: usize = 0;
    proof {
        lemma_elems_view(p.children@);
    }
    while i < p.children.len()
        invariant
            i <= p.children.len(),
            elems_view(kids@) == seg1 + seg2 + elems_view(p.children@).take(i as int),
        decreases p.children.len() - i,
    {
        let c = clone_element(&p.children[i]);
        push_child(&mut kids, c);
        i = i + 1;
        proof {
            lemma_elems_view(p.children@);
            assert(elems_view(kids@) =~= seg1 + seg2 + elems_view(p.children@).take(i as int));
        }
    }
    proof {
        assert(elems_view(p.children@).take(p.children@.len() as int) =~= elems_view(
            p.children@,
        ));
    }
    if let Some(g) = &p.geometry {
        push_child(&mut kids, lower_geometry(g));
    }
    proof {
        assert(elems_view(kids@) =~= seg1 + seg2 + p@.children + seg4);
    }
    let r = node("Placemark", empty_attrs(), kids);
    proof {
        assert(r@.attrs =~= lower_placemark_v(p@).attrs);
        assert(r@.children =~= lower_placemark_v(p@).children);
        assert(r@ =~= lower_placemark_v(p@));
    }
    r
}

pub fn lower_icon(i: &Icon) -> (r: Element)
    ensures
        r@ == lower_icon_v(i@),
{
    let mut kids: Vec<Element> = Vec::new();
    push_child(&mut kids, text_child("href", i.href.as_str()));
    let r = node("Icon", empty_attrs(), kids);
    proof {
        assert(r@.attrs =~= lower_icon_v(i@).attrs);
        assert(r@.children =~= lower_icon_v(i@).children);
        assert(r@ =~= lower_icon_v(i@));
    }
    r
}

pub fn lower_balloon_style(b: &BalloonStyle) -> (r: Element)
    ensures
        r@ == lower_balloon_style_v(b@),
{
    let ghost tgt = lower_balloon_style_v(b@);
    let ghost seg1: Seq<ElementV> = match b@.bg_color {
        Some(c) => seq![text_el("bgColor"@, c)],
        None => Seq::<ElementV>::empty(),
    };
    let ghost seg3: Seq<ElementV> = match b@.text {
        Some(t) => seq![text_el("text"@, t)],
        None => Seq::<ElementV>::empty(),
    };
    let mut kids: Vec<Element> = Vec::new();
    if let Some(c) = &b.bg_color {
        push_child(&mut kids, text_child("bgColor", c.as_str()));
    }
    proof {
        assert(elems_view(kids@) =~= seg1);
    }
    push_child(&mut kids, text_child("textColor", b.text_color.as_str()));
    if let Some(t) = &b.text {
        push_child(&mut kids, text_child("text", t.as_str()));
    }
    proof {
        assert(elems_view(kids@) =~= seg1 + seq![text_el("textColor"@, b@.text_color)] + seg3);
    }
    if !b.display {
        push_child(&mut kids, text_child("displayMode", "hide"));
    }
    let r = node("BalloonStyle", make_id_attrs(&b.id), kids);
    proof {
        assert(r@.attrs =~= tgt.attrs);
        assert(r@.children =~= tgt.children);
        assert(r@ =~= tgt);
    }
    r
}

fn make_hot_spot_attrs(h: &crate::model::HotSpot) -> (r: Vec<(String, String)>)
    ensures
        r.deep_view() == lower_hot_spot_v(h@).attrs,
{
    let mut r: Vec<(String, String)> = Vec::new();
    r.push(("x".to_owned(), h.x.as_str().to_owned()));
    r.push(("y".to_owned(), h.y.as_str().to_owned()));
    r.push(("xunits".to_owned(), h.xunits.as_str().to_owned()));
    r.push(("yunits".to_owned(), h.yunits.as_str().to_owned()));
    proof {
        assert(r.deep_view() =~= lower_hot_spot_v(h@).attrs);
    }
    r
}

pub fn lower_icon_style(i: &IconStyle) -> (r: Element)
    ensures
        r@ == lower_icon_style_v(i@),
{
    let ghost tgt = lower_icon_style_v(i@);
    let ghost seg2: Seq<ElementV> = match i@.hot_spot {
        Some(h) => seq![lower_hot_spot_v(h)],
        None => Seq::<ElementV>::empty(),
    };
    let mut kids: Vec<Element> = Vec::new();
    push_child(&mut kids, text_child("scale", i.scale.as_str()));
    push_child(&mut kids, text_child("heading", i.heading.as_str()));
    if let Some(h) = &i.hot_spot {
        let hs = Element {
            name: "hotSpot".to_owned(),
            attrs: make_hot_spot_attrs(h),
            content: None,
            children: Vec::new(),
        };
        proof {
            assert(elems_view(hs.children@) =~= Seq::<ElementV>::empty());
            assert(hs@.attrs =~= lower_hot_spot_v(h@).attrs);
            assert(hs@ =~= lower_hot_spot_v(h@));
        }
        push_child(&mut kids, hs);
    }
    proof {
        assert(elems_view(kids@) =~= seq![
            text_el("scale"@, i@.scale),
            text_el("heading"@, i@.heading),
        ] + seg2);
    }
    push_child(&mut kids, text_child("color", i.color.as_str()));
    push_child(&mut kids, text_child("colorMode", i.color_mode.as_str()));
    push_child(&mut kids, lower_icon(&i.icon));
    let r = node("IconStyle", make_id_attrs(&i.id), kids);
    proof {
        assert(r@.attrs =~= tgt.attrs);
        assert(r@.children =~= tgt.children);
        assert(r@ =~= tgt);
    }
    r
}

pub fn lower_label_style(l: &LabelStyle) -> (r: Element)
    ensures
        r@ == lower_label_style_v(l@),
{
    let mut kids: Vec<Element> = Vec::new();
    push_child(&mut kids, text_child("color", l.color.as_str()));
    push_child(&mut kids, text_child("colorMode", l.color_mode.as_str()));
    push_child(&mut kids, text_child("scale", l.scale.as_str()));
    let r = node("LabelStyle", make_id_attrs(&l.id), kids);
    proof {
        assert(r@.attrs =~= lower_label_style_v(l@).attrs);
        assert(r@.children =~= lower_label_style_v(l@).children);
        assert(r@ =~= lower_label_style_v(l@));
    }
    r
}

pub fn lower_line_style(l: &LineStyle) -> (r: Element)
    ensures
        r@ == lower_line_style_v(l@),
{
    let mut kids: Vec<Element> = Vec::new();
    push_child(&mut kids, text_child("color", l.color.as_str()));
    push_child(&mut kids, text_child("colorMode", l.color_mode.as_str()));
    push_child(&mut kids, text_child("width", l.width.as_str()));
    let r = node("LineStyle", make_id_attrs(&l.id), kids);
    proof {
        assert(r@.attrs =~= lower_line_style_v(l@).attrs);
        assert(r@.children =~= lower_line_style_v(l@).children);
        assert(r@ =~= lower_line_style_v(l@));
    }
    r
}

pub fn lower_poly_style(p: &PolyStyle) -> (r: Element)
    ensures
        r@ == lower_poly_style_v(p@),
{
    let mut kids: Vec<Element> = Vec::new();
    push_child(&mut kids, text_child("color", p.color.as_str()));
    push_child(&mut kids, text_child("colorMode", p.color_mode.as_str()));
    push_child(&mut kids, text_child("fill", bool_str(p.fill)));
    push_child(&mut kids, text_child("outline", bool_str(p.outline)));
    let r = node("PolyStyle", make_id_attrs(&p.id), kids);
    proof {
        assert(r@.attrs =~= lower_poly_style_v(p@).attrs);
        assert(r@.children =~= lower_poly_style_v(p@).children);
        assert(r@ =~= lower_poly_style_v(p@));
    }
    r
}

pub fn lower_list_style(l: &ListStyle) -> (r: Element)
    ensures
        r@ == lower_list_style_v(l@),
{
    let mut kids: Vec<Element> = Vec::new();
    push_child(&mut kids, text_child("bgColor", l.bg_color.as_str()));
    push_child(&mut kids, text_child("maxSnippetLines", l.max_snippet_lines.as_str()));
    let r = node("ListStyle", make_id_attrs(&l.id), kids);
    proof {
        assert(r@.attrs =~= lower_list_style_v(l@).attrs);
        assert(r@.children =~= lower_list_style_v(l@).children);
        assert(r@ =~= lower_list_style_v(l@));
    }
    r
}

pub fn lower_style(s: &Style) -> (r: Element)
    ensures
        r@ == lower_style_v(s@),
{
    let ghost tgt = lower_style_v(s@);
    let ghost c1: Seq<ElementV> = opt_child(
        match s@.balloon {
            Some(b) => Some(lower_balloon_style_v(b)),
            None => None,
        },
    );
    let ghost c2: Seq<ElementV> = opt_child(
        match s@.icon {
            Some(i) => Some(lower_icon_style_v(i)),
            None => None,
        },
    );
    let ghost c3: Seq<ElementV> = opt_child(
        match s@.label {
            Some(l) => Some(lower_label_style_v(l)),
            None => None,
        },
    );
    let ghost c4: Seq<ElementV> = opt_child(
        match s@.line {
            Some(l) => Some(lower_line_style_v(l)),
            None => None,
        },
    );
    let ghost c5: Seq<ElementV> = opt_child(
        match s@.poly {
            Some(p) => Some(lower_poly_style_v(p)),
            None => None,
        },
    );
    let ghost c6: Seq<ElementV> = opt_child(
        match s@.list {
            Some(l) => Some(lower_list_style_v(l)),
            None => None,
        },
    );
    let mut kids: Vec<Element> = Vec::new();
    if let Some(b) = &s.balloon {
        push_child(&mut kids, lower_balloon_style(b));
    }
    proof {
        assert(elems_view(kids@) =~= c1);
    }
    if let Some(i) = &s.icon {
        push_child(&mut kids, lower_icon_style(i));
    }
    proof {
        assert(elems_view(kids@) =~= c1 + c2);
    }
    if let Some(l) = &s.label {
        push_child(&mut kids, lower_label_style(l));
    }
    proof {
        assert(elems_view(kids@) =~= c1 + c2 + c3);
    }
    if let Some(l) = &s.line {
        push_child(&mut kids, lower_line_style(l));
    }
    proof {
        assert(elems_view(kids@) =~= c1 + c2 + c3 + c4);
    }
    if let Some(p) = &s.poly {
        push_child(&mut kids, lower_poly_style(p));
    }
    proof {
        assert(elems_view(kids@) =~= c1 + c2 + c3 + c4 + c5);
    }
    if let Some(l) = &s.list {
        push_child(&mut kids, lower_list_style(l));
    }
    proof {
        assert(elems_view(kids@) =~= c1 + c2 + c3 + c4 + c5 + c6);
    }
    let r = node("Style", make_id_attrs(&s.id), kids);
    proof {
        assert(r@.attrs =~= tgt.attrs);
        assert(r@.children =~= tgt.children);
        assert(r@ =~= tgt);
    }
    r
}

pub fn lower_pair(p: &Pair) -> (r: Element)
    ensures
        r@ == lower_pair_v(p@),
{
    let mut kids: Vec<Element> = Vec::new();
    push_child(&mut kids, text_child("key", p.key.as_str()));
    push_child(&mut kids, text_child("styleUrl", p.style_url.as_str()));
    let r = node("Pair", clone_attrs(&p.attrs), kids);
    proof {
        assert(r@.attrs =~= lower_pair_v(p@).attrs);
        assert(r@.children =~= lower_pair_v(p@).children);
        assert(r@ =~= lower_pair_v(p@));
    }
    r
}

pub fn lower_style_map(s: &StyleMap) -> (r: Element)
    ensures
        r@ == lower_style_map_v(s@),
{
    let ghost tgt = lower_style_map_v(s@);
    let mut kids: Vec<Element> = Vec::new();
    let mut i: usize = 0;
    while i < s.pairs.len()
        invariant
            i <= s.pairs.len(),
            elems_view(kids@) == s.pairs@.take(i as int).map_values(
                |p: Pair| lower_pair_v(p@),
            ),
        decreases s.pairs.len() - i,
    {
        push_child(&mut kids, lower_pair(&s.pairs[i]));
        i = i + 1;
        proof {
            assert(elems_view(kids@) =~= s.pairs@.take(i as int).map_values(
                |p: Pair| lower_pair_v(p@),
            ));
        }
    }
    proof {
        assert(s.pairs@.take(s.pairs@.len() as int) =~= s.pairs@);
        assert(s.pairs@.map_values(|p: Pair| lower_pair_v(p@)) =~= tgt.children);
    }
    let r = node("StyleMap", make_id_attrs(&s.id), kids);
    proof {
        assert(r@.attrs =~= tgt.attrs);
        assert(r@.children =~= tgt.children);
        assert(r@ =~= tgt);
    }
    r
}

/// The shared field layout of `<Link>` and the link-shaped `<Icon>`.
#[verifier::rlimit(60)]
fn lower_link_children(
    href: &Option<String>,
    refresh_mode: &Option<crate::model::RefreshMode>,
    refresh_interval: &crate::model::KmlNum,
    view_refresh_mode: &Option<crate::model::ViewRefreshMode>,
    view_refresh_time: &crate::model::KmlNum,
    view_bound_scale: &crate::model::KmlNum,
    view_format: &Option<String>,
    http_query: &Option<String>,
) -> (kids: Vec<Element>)
    ensures
        elems_view(kids@) == lower_link_v(
            Seq::<char>::empty(),
            crate::views::LinkV {
                href: crate::views::opt_str(*href),
                refresh_mode: *refresh_mode,
                refresh_interval: refresh_interval@,
                view_refresh_mode: *view_refresh_mode,
                view_refresh_time: view_refresh_time@,
                view_bound_scale: view_bound_scale@,
                view_format: crate::views::opt_str(*view_format),
                http_query: crate::views::opt_str(*http_query),
                attrs: Seq::empty(),
            },
        ).children,
{
    let ghost s1: Seq<ElementV> = match crate::views::opt_str(*href) {
        Some(h) => seq![text_el("href"@, h)],
        None => Seq::<ElementV>::empty(),
    };
    let ghost s2: Seq<ElementV> = match *refresh_mode {
        Some(m) => seq![text_el("refreshMode"@, refresh_mode_text(m))],
        None => Seq::<ElementV>::empty(),
    };
    let ghost s4: Seq<ElementV> = match *view_refresh_mode {
        Some(m) => seq![text_el("viewRefreshMode"@, view_refresh_mode_text(m))],
        None => Seq::<ElementV>::empty(),
    };
    let ghost s6: Seq<ElementV> = match crate::views::opt_str(*view_format) {
        Some(f) => seq![text_el("viewFormat"@, f)],
        None => Seq::<ElementV>::empty(),
    };
    let ghost s7: Seq<ElementV> = match crate::views::opt_str(*http_query) {
        Some(q) => seq![text_el("httpQuery"@, q)],
        None => Seq::<ElementV>::empty(),
    };
    let mut kids: Vec<Element> = Vec::new();
    if let Some(h) = href {
        push_child(&mut kids, text_child("href", h.as_str()));
    }
    proof {
        assert(elems_view(kids@) =~= s1);
    }
    if let Some(m) = refresh_mode {
        push_child(&mut kids, text_child("refreshMode", m.as_str()));
    }
    proof {
        assert(elems_view(kids@) =~= s1 + s2);
    }
    push_child(&mut kids, text_child("refreshInterval", refresh_interval.as_str()));
    if let Some(m) = view_refresh_mode {
        push_child(&mut kids, text_child("viewRefreshMode", m.as_str()));
    }
    proof {
        assert(elems_view(kids@) =~= s1 + s2 + seq![
            text_el("refreshInterval"@, refresh_interval@),
        ] + s4);
    }
    push_child(&mut kids, text_child("viewRefreshTime", view_refresh_time.as_str()));
    push_child(&mut kids, text_child("viewBoundScale", view_bound_scale.as_str()));
    if let Some(f) = view_format {
        push_child(&mut kids, text_child("viewFormat", f.as_str()));
    }
    proof {
        assert(elems_view(kids@) =~= s1 + s2 + seq![
            text_el("refreshInterval"@, refresh_interval@),
        ] + s4 + seq![
            text_el("viewRefreshTime"@, view_refresh_time@),
            text_el("viewBoundScale"@, view_bound_scale@),
        ] + s6);
    }
    if let Some(q) = http_query {
        push_child(&mut kids, text_child("httpQuery", q.as_str()));
    }
    proof {
        assert(elems_view(kids@) =~= s1 + s2 + seq![
            text_el("refreshInterval"@, refresh_interval@),
        ] + s4 + seq![
            text_el("viewRefreshTime"@, view_refresh_time@),
            text_el("viewBoundScale"@, view_bound_scale@),
        ] + s6 + s7);
    }
    kids
}

pub fn lower_link(l: &Link) -> (r: Element)
    ensures
        r@ == lower_link_v("Link"@, l@),
{
    let kids = lower_link_children(
        &l.href,
        &l.refresh_mode,
        &l.refresh_interval,
        &l.view_refresh_mode,
        &l.view_refresh_time,
        &l.view_bound_scale,
        &l.view_format,
        &l.http_query,
    );
    let r = node("Link", clone_attrs(&l.attrs), kids);
    proof {
        assert(r@.attrs =~= lower_link_v("Link"@, l@).attrs);
        assert(r@.children =~= lower_link_v("Link"@, l@).children);
        assert(r@ =~= lower_link_v("Link"@, l@));
    }
    r
}

pub fn lower_link_type_icon(l: &LinkTypeIcon) -> (r: Element)
    ensures
        r@ == lower_link_v("Icon"@, l@),
{
    let kids = lower_link_children(
        &l.href,
        &l.refresh_mode,
        &l.refresh_interval,
        &l.view_refresh_mode,
        &l.view_refresh_time,
        &l.view_bound_scale,
        &l.view_format,
        &l.http_query,
    );
    let r = node("Icon", clone_attrs(&l.attrs), kids);
    proof {
        assert(r@.attrs =~= lower_link_v("Icon"@, l@).attrs);
        assert(r@.children =~= lower_link_v("Icon"@, l@).children);
        assert(r@ =~= lower_link_v("Icon"@, l@));
    }
    r
}

pub fn lower_alias(a: &Alias) -> (r: Element)
    ensures
        r@ == lower_alias_v(a@),
{
    let ghost s1: Seq<ElementV> = match a@.target_href {
        Some(h) => seq![text_el("targetHref"@, h)],
        None => Seq::<ElementV>::empty(),
    };
    let mut kids: Vec<Element> = Vec::new();
    if let Some(h) = &a.target_href {
        push_child(&mut kids, text_child("targetHref", h.as_str()));
    }
    proof {
        assert(elems_view(kids@) =~= s1);
    }
    if let Some(h) = &a.source_href {
        push_child(&mut kids, text_child("sourceHref", h.as_str()));
    }
    let r = node("Alias", clone_attrs(&a.attrs), kids);
    proof {
        assert(r@.attrs =~= lower_alias_v(a@).attrs);
        assert(r@.children =~= lower_alias_v(a@).children);
        assert(r@ =~= lower_alias_v(a@));
    }
    r
}

pub fn lower_resource_map(rm: &ResourceMap) -> (r: Element)
    ensures
        r@ == lower_resource_map_v(rm@),
{
    let ghost tgt = lower_resource_map_v(rm@);
    let mut kids: Vec<Element> = Vec::new();
    let mut i: usize = 0;
    while i < rm.aliases.len()
        invariant
            i <= rm.aliases.len(),
            elems_view(kids@) == rm.aliases@.take(i as int).map_values(
                |a: Alias| lower_alias_v(a@),
            ),
        decreases rm.aliases.len() - i,
    {
        push_child(&mut kids, lower_alias(&rm.aliases[i]));
        i = i + 1;
        proof {
            assert(elems_view(kids@) =~= rm.aliases@.take(i as int).map_values(
                |a: Alias| lower_alias_v(a@),
            ));
        }
    }
    proof {
        assert(rm.aliases@.take(rm.aliases@.len() as int) =~= rm.aliases@);
        assert(rm.aliases@.map_values(|a: Alias| lower_alias_v(a@)) =~= tgt.children);
    }
    let r = node("ResourceMap", clone_attrs(&rm.attrs), kids);
    proof {
        assert(r@.attrs =~= tgt.attrs);
        assert(r@.children =~= tgt.children);
        assert(r@ =~= tgt);
    }
    r
}

pub fn lower_simple_data(d: &SimpleData) -> (r: Element)
    ensures
        r@ == lower_simple_data_v(d@),
{
    let r = Element {
        name: "SimpleData".to_owned(),
        attrs: clone_attrs(&d.attrs),
        content: Some(d.value.clone()),
        children: Vec::new(),
    };
    proof {
        assert(elems_view(r.children@) =~= Seq::<ElementV>::empty());
        assert(r@.attrs =~= lower_simple_data_v(d@).attrs);
        assert(r@ =~= lower_simple_data_v(d@));
    }
    r
}

pub fn lower_simple_array_data(d: &SimpleArrayData) -> (r: Element)
    ensures
        r@ == lower_simple_array_data_v(d@),
{
    let ghost tgt = lower_simple_array_data_v(d@);
    let mut kids: Vec<Element> = Vec::new();
    let mut i: usize = 0;
    while i < d.values.len()
        invariant
            i <= d.values.len(),
            elems_view(kids@) == d.values@.take(i as int).map_values(
                |v: String| text_el("value"@, v@),
            ),
        decreases d.values.len() - i,
    {
        push_child(&mut kids, text_child("value", d.values[i].as_str()));
        i = i + 1;
        proof {
            assert(elems_view(kids@) =~= d.values@.take(i as int).map_values(
                |v: String| text_el("value"@, v@),
            ));
        }
    }
    proof {
        assert(d.values@.take(d.values@.len() as int) =~= d.values@);
        assert(d.values@.map_values(|v: String| text_el("value"@, v@)) =~= tgt.children);
    }
    let r = node("SimpleArrayData", clone_attrs(&d.attrs), kids);
    proof {
        assert(r@.attrs =~= tgt.attrs);
        assert(r@.children =~= tgt.children);
        assert(r@ =~= tgt);
    }
    r
}

pub fn lower_schema_data(s: &SchemaData) -> (r: Element)
    ensures
        r@ == lower_schema_data_v(s@),
{
    let ghost tgt = lower_schema_data_v(s@);
    let ghost dpart = s.data@.map_values(|d: SimpleData| lower_simple_data_v(d@));
    let mut kids: Vec<Element> = Vec::new();
    let mut i: usize = 0;
    while i < s.data.len()
        invariant
            i <= s.data.len(),
            dpart == s.data@.map_values(|d: SimpleData| lower_simple_data_v(d@)),
            elems_view(kids@) == s.data@.take(i as int).map_values(
                |d: SimpleData| lower_simple_data_v(d@),
            ),
        decreases s.data.len() - i,
    {
        push_child(&mut kids, lower_simple_data(&s.data[i]));
        i = i + 1;
        proof {
            assert(elems_view(kids@) =~= s.data@.take(i as int).map_values(
                |d: SimpleData| lower_simple_data_v(d@),
            ));
        }
    }
    proof {
        assert(s.data@.take(s.data@.len() as int) =~= s.data@);
    }
    let mut j: usize = 0;
    while j < s.arrays.len()
        invariant
            j <= s.arrays.len(),
            dpart == s.data@.map_values(|d: SimpleData| lower_simple_data_v(d@)),
            elems_view(kids@) == dpart + s.arrays@.take(j as int).map_values(
                |d: SimpleArrayData| lower_simple_array_data_v(d@),
            ),
        decreases s.arrays.len() - j,
    {
        push_child(&mut kids, lower_simple_array_data(&s.arrays[j]));
        j = j + 1;
        proof {
            assert(elems_view(kids@) =~= dpart + s.arrays@.take(j as int).map_values(
                |d: SimpleArrayData| lower_simple_array_data_v(d@),
            ));
        }
    }
    proof {
        assert(s.arrays@.take(s.arrays@.len() as int) =~= s.arrays@);
        assert(dpart + s.arrays@.map_values(|d: SimpleArrayData| lower_simple_array_data_v(d@))
            =~= tgt.children);
    }
    let r = node("SchemaData", clone_attrs(&s.attrs), kids);
    proof {
        assert(r@.attrs =~= tgt.attrs);
        assert(r@.children =~= tgt.children);
        assert(r@ =~= tgt);
    }
    r
}

/// The whole dispatch: lower any node to the raw element it
/// serializes as.
#[verifier::loop_isolation(false)]
pub fn lower_kml(k: &Kml) -> (r: Element)
    ensures
        r@ == lower_v(k@),
    decreases *k,
{
    match k {
        Kml::KmlDocument(d) => {
            let kids = lower_kml_vec(&d.elements);
            let r = node("kml", clone_attrs(&d.attrs), kids);
            proof {
                assert(r@.attrs =~= lower_v(k@).attrs);
                assert(r@.children =~= lower_v(k@).children);
                assert(r@ =~= lower_v(k@));
            }
            r
        },
        Kml::Scale(s) => lower_scale(s),
        Kml::Orientation(o) => lower_orientation(o),
        Kml::Point(p) => lower_point(p),
        Kml::Location(l) => lower_location(l),
        Kml::LineString(l) => lower_line_string(l),
        Kml::LinearRing(l) => lower_linear_ring(l),
        Kml::Polygon(p) => lower_polygon(p),
        Kml::MultiGeometry(m) => lower_multi_geometry(m),
        Kml::Placemark(p) => lower_placemark(p),
        Kml::Style(s) => lower_style(s),
        Kml::StyleMap(s) => lower_style_map(s),
        Kml::Pair(p) => lower_pair(p),
        Kml::BalloonStyle(b) => lower_balloon_style(b),
        Kml::IconStyle(i) => lower_icon_style(i),
        Kml::Icon(i) => lower_icon(i),
        Kml::LabelStyle(l) => lower_label_style(l),
        Kml::LineStyle(l) => lower_line_style(l),
        Kml::PolyStyle(p) => lower_poly_style(p),
        Kml::ListStyle(l) => lower_list_style(l),
        Kml::LinkTypeIcon(i) => lower_link_type_icon(i),
        Kml::Link(l) => lower_link(l),
        Kml::ResourceMap(r) => lower_resource_map(r),
        Kml::Alias(a) => lower_alias(a),
        Kml::SchemaData(s) => lower_schema_data(s),
        Kml::SimpleArrayData(s) => lower_simple_array_data(s),
        Kml::SimpleData(s) => lower_simple_data(s),
        Kml::Document { attrs, elements } => {
            let kids = lower_kml_vec(elements);
            let r = node("Document", clone_attrs(attrs), kids);
            proof {
                assert(r@.attrs =~= lower_v(k@).attrs);
                assert(r@.children =~= lower_v(k@).children);
                assert(r@ =~= lower_v(k@));
            }
            r
        },
        Kml::Folder { attrs, elements } => {
            let kids = lower_kml_vec(elements);
            let r = node("Folder", clone_attrs(attrs), kids);
            proof {
                assert(r@.attrs =~= lower_v(k@).attrs);
                assert(r@.children =~= lower_v(k@).children);
                assert(r@ =~= lower_v(k@));
            }
            r
        },
        Kml::Element(e) => clone_element(e),
    }
}

/// One more lowered node on the end of a prefix.
proof fn lemma_lower_seq_take(s: Seq<KmlV>, i: int)
    requires
        0 <= i <= s.len(),
    ensures
        i == 0 ==> lower_seq_v(s.take(0)) == Seq::<ElementV>::empty(),
        i > 0 ==> lower_seq_v(s.take(i)) == lower_seq_v(s.take(i - 1)).push(lower_v(s[i - 1])),
    decreases i,
{
    if i == 0 {
        assert(s.take(0) =~= Seq::<KmlV>::empty());
    } else if i == 1 {
        assert(s.take(1) =~= seq![s[0]]);
        assert(s.take(0) =~= Seq::<KmlV>::empty());
        assert(seq![s[0]].drop_first() =~= Seq::<KmlV>::empty());
        assert(lower_seq_v(s.take(1)) =~= lower_seq_v(s.take(0)).push(lower_v(s[0])));
    } else {
        assert(s.take(i)[0] == s[0]);
        assert(s.take(i).drop_first() =~= s.drop_first().take(i - 1));
        assert(s.take(i - 1)[0] == s[0]);
        assert(s.take(i - 1).drop_first() =~= s.drop_first().take(i - 2));
        lemma_lower_seq_take(s.drop_first(), i - 1);
        assert(lower_seq_v(s.take(i)) =~= lower_seq_v(s.take(i - 1)).push(lower_v(s[i - 1])));
    }
}

/// The lowered elements of a container's child list.
#[verifier::loop_isolation(false)]
fn lower_kml_vec(elems: &Vec<Kml>) -> (kids: Vec<Element>)
    ensures
        elems_view(kids@) == lower_seq_v(crate::views::kmls_view(elems@)),
    decreases elems@,
{
    let ghost kv = crate::views::kmls_view(elems@);
    proof {
        crate::views::lemma_kmls_view(elems@);
        lemma_lower_seq_take(kv, 0);
    }
    let mut kids: Vec<Element> = Vec::new();
    let mut i: usize = 0;
    while i < elems.len()
        invariant
            i <= elems.len(),
            elems_view(kids@) == lower_seq_v(kv.take(i as int)),
        decreases elems.len() - i,
    {
        proof {
            assert(decreases_to!(elems@ => elems@[i as int]));
        }
        let child = lower_kml(&elems[i]);
        push_child(&mut kids, child);
        i = i + 1;
        proof {
            lemma_lower_seq_take(kv, i as int);
        }
    }
    proof {
        assert(kv.take(elems@.len() as int) =~= kv);
    }
    kids
}

} // verus!
