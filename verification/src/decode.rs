//! The decoder's schema layer: interpreting a raw element tree as the
//! typed document tree, applying the standard's defaults, tolerating
//! unknown tags, and failing fast on bad numbers and enum texts.
use vstd::prelude::*;

use crate::model::Alias;
use crate::model::AltitudeMode;
use crate::model::BalloonStyle;
use crate::model::ColorMode;
use crate::model::Coord;
use crate::model::Element;
use crate::model::Geometry;
use crate::model::HotSpot;
use crate::model::Icon;
use crate::model::IconStyle;
use crate::model::Kml;
use crate::model::KmlDocument;
use crate::model::KmlError;
use crate::model::KmlNum;
use crate::model::LabelStyle;
use crate::model::LineString;
use crate::model::LineStyle;
use crate::model::LinearRing;
use crate::model::Link;
use crate::model::LinkTypeIcon;
use crate::model::ListStyle;
use crate::model::Location;
use crate::model::MultiGeometry;
use crate::model::Orientation;
use crate::model::Pair;
use crate::model::Placemark;
use crate::model::Point;
use crate::model::PolyStyle;
use crate::model::Polygon;
use crate::model::RefreshMode;
use crate::model::ResourceMap;
use crate::model::Scale;
use crate::model::SchemaData;
use crate::model::SimpleArrayData;
use crate::model::SimpleData;
use crate::model::Style;
use crate::model::StyleMap;
use crate::model::Units;
use crate::model::ViewRefreshMode;
use crate::model::valid_number;
use crate::txt::altitude_mode_text;
use crate::txt::color_mode_text;
use crate::txt::refresh_mode_text;
use crate::txt::spec_parse_coords;
use crate::txt::str_chars;
use crate::txt::str_eq;
use crate::txt::units_text;
use crate::txt::view_refresh_mode_text;
use crate::views::AttrsV;
use crate::views::CoordV;
use crate::views::ElementV;
use crate::views::KmlErrorV;
use crate::views::KmlV;
use crate::views::elems_view;
use crate::views::lemma_elems_view;

verus! {

// -------------------------------------------------------------------
// Field extraction.
// -------------------------------------------------------------------

/// The first child carrying the given tag, if any.
pub open spec fn first_child(s: Seq<ElementV>, name: Seq<char>) -> Option<ElementV>
    decreases s.len(),
{
    if s.len() == 0 {
        None
    } else if s[0].name == name {
        Some(s[0])
    } else {
        first_child(s.drop_first(), name)
    }
}

/// The first attribute with the given key, if any.
pub open spec fn attr_of(a: AttrsV, key: Seq<char>) -> Option<Seq<char>>
    decreases a.len(),
{
    if a.len() == 0 {
        None
    } else if a[0].0 == key {
        Some(a[0].1)
    } else {
        attr_of(a.drop_first(), key)
    }
}

/// The text of a named field: the first matching child's content.
/// Missing child and childless content both read as absent.
pub open spec fn field_text(s: Seq<ElementV>, name: Seq<char>) -> Option<Seq<char>> {
    match first_child(s, name) {
        None => None,
        Some(c) => c.content,
    }
}

/// A numeric field: absent resolves to the default, present text must
/// parse, and the error names the offending text.
pub open spec fn num_field(s: Seq<ElementV>, name: Seq<char>, dflt: Seq<char>) -> Result<
    Seq<char>,
    KmlErrorV,
> {
    match field_text(s, name) {
        None => Ok(dflt),
        Some(t) => if valid_number(t) {
            Ok(t)
        } else {
            Err(KmlErrorV::NumericParse(t))
        },
    }
}

/// A boolean field: absent resolves to the default, present text is
/// true exactly when it is `"1"`.
pub open spec fn bool_field(s: Seq<ElementV>, name: Seq<char>, dflt: bool) -> bool {
    match field_text(s, name) {
        None => dflt,
        Some(t) => t == "1"@,
    }
}

/// A string field with a default.
pub open spec fn str_field(s: Seq<ElementV>, name: Seq<char>, dflt: Seq<char>) -> Seq<char> {
    match field_text(s, name) {
        None => dflt,
        Some(t) => t,
    }
}

// -------------------------------------------------------------------
// Enum texts.
// -------------------------------------------------------------------

pub open spec fn am_of_text(t: Seq<char>) -> Option<AltitudeMode> {
    if t == altitude_mode_text(AltitudeMode::ClampToGround) {
        Some(AltitudeMode::ClampToGround)
    } else if t == altitude_mode_text(AltitudeMode::RelativeToGround) {
        Some(AltitudeMode::RelativeToGround)
    } else if t == altitude_mode_text(AltitudeMode::Absolute) {
        Some(AltitudeMode::Absolute)
    } else {
        None
    }
}

/// The altitude-mode field: absent resolves to clamp-to-ground,
/// unknown text is a structural error.
pub open spec fn am_field(s: Seq<ElementV>) -> Result<AltitudeMode, KmlErrorV> {
    match field_text(s, "altitudeMode"@) {
        None => Ok(AltitudeMode::ClampToGround),
        Some(t) => match am_of_text(t) {
            Some(m) => Ok(m),
            None => Err(KmlErrorV::UnexpectedElement(t)),
        },
    }
}

pub open spec fn refresh_mode_of_text(t: Seq<char>) -> Option<RefreshMode> {
    if t == refresh_mode_text(RefreshMode::OnChange) {
        Some(RefreshMode::OnChange)
    } else if t == refresh_mode_text(RefreshMode::OnInterval) {
        Some(RefreshMode::OnInterval)
    } else if t == refresh_mode_text(RefreshMode::OnExpire) {
        Some(RefreshMode::OnExpire)
    } else {
        None
    }
}

pub open spec fn view_refresh_mode_of_text(t: Seq<char>) -> Option<ViewRefreshMode> {
    if t == view_refresh_mode_text(ViewRefreshMode::Never) {
        Some(ViewRefreshMode::Never)
    } else if t == view_refresh_mode_text(ViewRefreshMode::OnRequest) {
        Some(ViewRefreshMode::OnRequest)
    } else if t == view_refresh_mode_text(ViewRefreshMode::OnStop) {
        Some(ViewRefreshMode::OnStop)
    } else if t == view_refresh_mode_text(ViewRefreshMode::OnRegion) {
        Some(ViewRefreshMode::OnRegion)
    } else {
        None
    }
}

pub open spec fn color_mode_of_text(t: Seq<char>) -> Option<ColorMode> {
    if t == color_mode_text(ColorMode::Default) {
        Some(ColorMode::Default)
    } else if t == color_mode_text(ColorMode::Normal) {
        Some(ColorMode::Normal)
    } else if t == color_mode_text(ColorMode::Random) {
        Some(ColorMode::Random)
    } else {
        None
    }
}

pub open spec fn units_of_text(t: Seq<char>) -> Option<Units> {
    if t == units_text(Units::Fraction) {
        Some(Units::Fraction)
    } else if t == units_text(Units::Pixels) {
        Some(Units::Pixels)
    } else if t == units_text(Units::InsetPixels) {
        Some(Units::InsetPixels)
    } else {
        None
    }
}

/// An optional enum field: absent stays absent, unknown text is a
/// structural error.
pub open spec fn refresh_mode_field(s: Seq<ElementV>) -> Result<Option<RefreshMode>, KmlErrorV> {
    match field_text(s, "refreshMode"@) {
        None => Ok(None),
        Some(t) => match refresh_mode_of_text(t) {
            Some(m) => Ok(Some(m)),
            None => Err(KmlErrorV::UnexpectedElement(t)),
        },
    }
}

pub open spec fn view_refresh_mode_field(s: Seq<ElementV>) -> Result<
    Option<ViewRefreshMode>,
    KmlErrorV,
> {
    match field_text(s, "viewRefreshMode"@) {
        None => Ok(None),
        Some(t) => match view_refresh_mode_of_text(t) {
            Some(m) => Ok(Some(m)),
            None => Err(KmlErrorV::UnexpectedElement(t)),
        },
    }
}

/// The colour-mode field: absent resolves to the default mode.
pub open spec fn color_mode_field(s: Seq<ElementV>) -> Result<ColorMode, KmlErrorV> {
    match field_text(s, "colorMode"@) {
        None => Ok(ColorMode::Default),
        Some(t) => match color_mode_of_text(t) {
            Some(m) => Ok(m),
            None => Err(KmlErrorV::UnexpectedElement(t)),
        },
    }
}

/// A unit-valued tag attribute: absent resolves to fractions.
pub open spec fn units_attr(a: AttrsV, key: Seq<char>) -> Result<Units, KmlErrorV> {
    match attr_of(a, key) {
        None => Ok(Units::Fraction),
        Some(t) => match units_of_text(t) {
            Some(u) => Ok(u),
            None => Err(KmlErrorV::UnexpectedElement(t)),
        },
    }
}

/// A numeric tag attribute with a default.
pub open spec fn num_attr(a: AttrsV, key: Seq<char>, dflt: Seq<char>) -> Result<
    Seq<char>,
    KmlErrorV,
> {
    match attr_of(a, key) {
        None => Ok(dflt),
        Some(t) => if valid_number(t) {
            Ok(t)
        } else {
            Err(KmlErrorV::NumericParse(t))
        },
    }
}

/// The coordinate list field: absent means no coordinates.
pub open spec fn coords_field(s: Seq<ElementV>) -> Result<Seq<CoordV>, KmlErrorV> {
    match field_text(s, "coordinates"@) {
        None => Ok(Seq::empty()),
        Some(t) => spec_parse_coords(t),
    }
}

// -------------------------------------------------------------------
// The per-type interpretations.
// -------------------------------------------------------------------

/// The five geometry tags.
pub open spec fn is_geom_name(n: Seq<char>) -> bool {
    n == "Point"@ || n == "LineString"@ || n == "LinearRing"@ || n == "Polygon"@ || n
        == "MultiGeometry"@
}

/// The ring a polygon falls back to when a boundary is missing.
pub open spec fn default_ring() -> crate::views::LinearRingV {
    crate::views::LinearRingV {
        coords: Seq::empty(),
        extrude: false,
        tessellate: false,
        altitude_mode: AltitudeMode::ClampToGround,
    }
}

/// The element id, read from the `id` tag attribute.
pub open spec fn id_of(a: AttrsV) -> Seq<char> {
    match attr_of(a, "id"@) {
        None => Seq::empty(),
        Some(t) => t,
    }
}

pub open spec fn interpret_scale(e: ElementV) -> Result<crate::views::ScaleV, KmlErrorV> {
    match num_field(e.children, "x"@, "1"@) {
        Err(er) => Err(er),
        Ok(x) => match num_field(e.children, "y"@, "1"@) {
            Err(er) => Err(er),
            Ok(y) => match num_field(e.children, "z"@, "1"@) {
                Err(er) => Err(er),
                Ok(z) => Ok(crate::views::ScaleV { x, y, z }),
            },
        },
    }
}

pub open spec fn interpret_orientation(e: ElementV) -> Result<
    crate::views::OrientationV,
    KmlErrorV,
> {
    match num_field(e.children, "roll"@, "0"@) {
        Err(er) => Err(er),
        Ok(roll) => match num_field(e.children, "tilt"@, "0"@) {
            Err(er) => Err(er),
            Ok(tilt) => match num_field(e.children, "heading"@, "0"@) {
                Err(er) => Err(er),
                Ok(heading) => Ok(crate::views::OrientationV { roll, tilt, heading }),
            },
        },
    }
}

pub open spec fn interpret_location(e: ElementV) -> Result<crate::views::LocationV, KmlErrorV> {
    match num_field(e.children, "longitude"@, "0"@) {
        Err(er) => Err(er),
        Ok(longitude) => match num_field(e.children, "latitude"@, "0"@) {
            Err(er) => Err(er),
            Ok(latitude) => match num_field(e.children, "altitude"@, "0"@) {
                Err(er) => Err(er),
                Ok(altitude) => Ok(crate::views::LocationV { longitude, latitude, altitude }),
            },
        },
    }
}

pub open spec fn interpret_point(e: ElementV) -> Result<crate::views::PointV, KmlErrorV> {
    match am_field(e.children) {
        Err(er) => Err(er),
        Ok(am) => match coords_field(e.children) {
            Err(er) => Err(er),
            Ok(cs) => Ok(
                crate::views::PointV {
                    coord: if cs.len() == 0 {
                        CoordV { x: "0"@, y: "0"@, z: None }
                    } else {
                        cs[0]
                    },
                    extrude: bool_field(e.children, "extrude"@, false),
                    altitude_mode: am,
                },
            ),
        },
    }
}

pub open spec fn interpret_line_string(e: ElementV) -> Result<
    crate::views::LineStringV,
    KmlErrorV,
> {
    match am_field(e.children) {
        Err(er) => Err(er),
        Ok(am) => match coords_field(e.children) {
            Err(er) => Err(er),
            Ok(cs) => Ok(
                crate::views::LineStringV {
                    coords: cs,
                    extrude: bool_field(e.children, "extrude"@, false),
                    tessellate: bool_field(e.children, "tessellate"@, false),
                    altitude_mode: am,
                },
            ),
        },
    }
}

pub open spec fn interpret_ring(e: ElementV) -> Result<crate::views::LinearRingV, KmlErrorV> {
    match am_field(e.children) {
        Err(er) => Err(er),
        Ok(am) => match coords_field(e.children) {
            Err(er) => Err(er),
            Ok(cs) => Ok(
                crate::views::LinearRingV {
                    coords: cs,
                    extrude: bool_field(e.children, "extrude"@, false),
                    tessellate: bool_field(e.children, "tessellate"@, false),
                    altitude_mode: am,
                },
            ),
        },
    }
}

/// The rings of an inner-boundary wrapper, in order; children that
/// are not rings are ignored.
pub open spec fn rings_of(s: Seq<ElementV>) -> Result<Seq<crate::views::LinearRingV>, KmlErrorV>
    decreases s.len(),
{
    if s.len() == 0 {
        Ok(Seq::empty())
    } else if s[0].name == "LinearRing"@ {
        match interpret_ring(s[0]) {
            Err(er) => Err(er),
            Ok(r) => match rings_of(s.drop_first()) {
                Err(er) => Err(er),
                Ok(rs) => Ok(seq![r] + rs),
            },
        }
    } else {
        rings_of(s.drop_first())
    }
}

pub open spec fn interpret_polygon(e: ElementV) -> Result<crate::views::PolygonV, KmlErrorV> {
    match am_field(e.children) {
        Err(er) => Err(er),
        Ok(am) => {
            let outer_r = match first_child(e.children, "outerBoundaryIs"@) {
                None => Ok(default_ring()),
                Some(ob) => match first_child(ob.children, "LinearRing"@) {
                    None => Ok(default_ring()),
                    Some(lr) => interpret_ring(lr),
                },
            };
            match outer_r {
                Err(er) => Err(er),
                Ok(outer) => {
                    let inner_r = match first_child(e.children, "innerBoundaryIs"@) {
                        None => Ok(Seq::empty()),
                        Some(ib) => rings_of(ib.children),
                    };
                    match inner_r {
                        Err(er) => Err(er),
                        Ok(inner) => Ok(
                            crate::views::PolygonV {
                                outer,
                                inner,
                                extrude: bool_field(e.children, "extrude"@, false),
                                tessellate: bool_field(e.children, "tessellate"@, false),
                                altitude_mode: am,
                                attrs: e.attrs,
                            },
                        ),
                    }
                },
            }
        },
    }
}

/// Interpret one geometry-tagged element.
pub open spec fn spec_interpret_geometry(e: ElementV) -> Result<
    crate::views::GeometryV,
    KmlErrorV,
>
    decreases e,
{
    if e.name == "Point"@ {
        match interpret_point(e) {
            Err(er) => Err(er),
            Ok(p) => Ok(crate::views::GeometryV::Point(p)),
        }
    } else if e.name == "LineString"@ {
        match interpret_line_string(e) {
            Err(er) => Err(er),
            Ok(l) => Ok(crate::views::GeometryV::LineString(l)),
        }
    } else if e.name == "LinearRing"@ {
        match interpret_ring(e) {
            Err(er) => Err(er),
            Ok(l) => Ok(crate::views::GeometryV::LinearRing(l)),
        }
    } else if e.name == "Polygon"@ {
        match interpret_polygon(e) {
            Err(er) => Err(er),
            Ok(p) => Ok(crate::views::GeometryV::Polygon(p)),
        }
    } else {
        match geoms_of(e.children) {
            Err(er) => Err(er),
            Ok(gs) => Ok(
                crate::views::GeometryV::MultiGeometry(
                    crate::views::MultiGeometryV { geometries: gs, attrs: e.attrs },
                ),
            ),
        }
    }
}

/// The nested geometries of a multi-geometry, in order; children that
/// are not geometries are ignored.
pub open spec fn geoms_of(s: Seq<ElementV>) -> Result<Seq<crate::views::GeometryV>, KmlErrorV>
    decreases s,
{
    if s.len() == 0 {
        Ok(Seq::empty())
    } else if is_geom_name(s[0].name) {
        match spec_interpret_geometry(s[0]) {
            Err(er) => Err(er),
            Ok(g) => match geoms_of(s.drop_first()) {
                Err(er) => Err(er),
                Ok(gs) => Ok(seq![g] + gs),
            },
        }
    } else {
        geoms_of(s.drop_first())
    }
}

/// The index of the first geometry-tagged child, or -1.
pub open spec fn first_geom_idx(s: Seq<ElementV>, i: int) -> int
    decreases s.len() - i,
{
    if i < 0 || i >= s.len() {
        -1
    } else if is_geom_name(s[i].name) {
        i
    } else {
        first_geom_idx(s, i + 1)
    }
}

/// Where the first geometry child sits.
pub proof fn lemma_first_geom_idx(s: Seq<ElementV>, i: int)
    requires
        0 <= i <= s.len(),
    ensures
        first_geom_idx(s, i) == -1 || (i <= first_geom_idx(s, i) < s.len()
            && is_geom_name(s[first_geom_idx(s, i)].name)),
        first_geom_idx(s, i) == -1 ==> forall|q: int|
            i <= q < s.len() ==> !is_geom_name((#[trigger] s[q]).name),
    decreases s.len() - i,
{
    if i < s.len() && !is_geom_name(s[i].name) {
        lemma_first_geom_idx(s, i + 1);
    }
}

/// The placemark children kept verbatim: everything that is not a
/// schema field or a geometry.
pub open spec fn keep_children(s: Seq<ElementV>) -> Seq<ElementV>
    decreases s.len(),
{
    if s.len() == 0 {
        Seq::empty()
    } else if s[0].name == "name"@ || s[0].name == "description"@ || is_geom_name(s[0].name) {
        keep_children(s.drop_first())
    } else {
        seq![s[0]] + keep_children(s.drop_first())
    }
}

pub open spec fn interpret_placemark(e: ElementV) -> Result<crate::views::PlacemarkV, KmlErrorV> {
    let gi = first_geom_idx(e.children, 0);
    let geometry_r = if gi < 0 {
        Ok(None)
    } else {
        match spec_interpret_geometry(e.children[gi]) {
            Err(er) => Err(er),
            Ok(g) => Ok(Some(g)),
        }
    };
    match geometry_r {
        Err(er) => Err(er),
        Ok(geometry) => Ok(
            crate::views::PlacemarkV {
                name: field_text(e.children, "name"@),
                description: field_text(e.children, "description"@),
                geometry,
                children: keep_children(e.children),
            },
        ),
    }
}

pub open spec fn interpret_balloon(e: ElementV) -> crate::views::BalloonStyleV {
    crate::views::BalloonStyleV {
        id: id_of(e.attrs),
        bg_color: field_text(e.children, "bgColor"@),
        text_color: str_field(e.children, "textColor"@, "ffffffff"@),
        text: field_text(e.children, "text"@),
        display: match field_text(e.children, "displayMode"@) {
            None => true,
            Some(t) => t != "hide"@,
        },
    }
}

pub open spec fn interpret_icon(e: ElementV) -> crate::views::IconV {
    crate::views::IconV { href: str_field(e.children, "href"@, Seq::empty()) }
}

pub open spec fn interpret_hot_spot(e: ElementV) -> Result<crate::views::HotSpotV, KmlErrorV> {
    match num_attr(e.attrs, "x"@, "0"@) {
        Err(er) => Err(er),
        Ok(x) => match num_attr(e.attrs, "y"@, "0"@) {
            Err(er) => Err(er),
            Ok(y) => match units_attr(e.attrs, "xunits"@) {
                Err(er) => Err(er),
                Ok(xunits) => match units_attr(e.attrs, "yunits"@) {
                    Err(er) => Err(er),
                    Ok(yunits) => Ok(crate::views::HotSpotV { x, y, xunits, yunits }),
                },
            },
        },
    }
}

pub open spec fn interpret_icon_style(e: ElementV) -> Result<crate::views::IconStyleV, KmlErrorV> {
    match num_field(e.children, "scale"@, "1"@) {
        Err(er) => Err(er),
        Ok(scale) => match num_field(e.children, "heading"@, "0"@) {
            Err(er) => Err(er),
            Ok(heading) => {
                let hs_r = match first_child(e.children, "hotSpot"@) {
                    None => Ok(None),
                    Some(h) => match interpret_hot_spot(h) {
                        Err(er) => Err(er),
                        Ok(hs) => Ok(Some(hs)),
                    },
                };
                match hs_r {
                    Err(er) => Err(er),
                    Ok(hot_spot) => match color_mode_field(e.children) {
                        Err(er) => Err(er),
                        Ok(color_mode) => Ok(
                            crate::views::IconStyleV {
                                id: id_of(e.attrs),
                                scale,
                                heading,
                                hot_spot,
                                color: str_field(e.children, "color"@, "ffffffff"@),
                                color_mode,
                                icon: match first_child(e.children, "Icon"@) {
                                    None => crate::views::IconV { href: Seq::empty() },
                                    Some(i) => interpret_icon(i),
                                },
                            },
                        ),
                    },
                }
            },
        },
    }
}

pub open spec fn interpret_label_style(e: ElementV) -> Result<
    crate::views::LabelStyleV,
    KmlErrorV,
> {
    match color_mode_field(e.children) {
        Err(er) => Err(er),
        Ok(color_mode) => match num_field(e.children, "scale"@, "1"@) {
            Err(er) => Err(er),
            Ok(scale) => Ok(
                crate::views::LabelStyleV {
                    id: id_of(e.attrs),
                    color: str_field(e.children, "color"@, "ffffffff"@),
                    color_mode,
                    scale,
                },
            ),
        },
    }
}

pub open spec fn interpret_line_style(e: ElementV) -> Result<crate::views::LineStyleV, KmlErrorV> {
    match color_mode_field(e.children) {
        Err(er) => Err(er),
        Ok(color_mode) => match num_field(e.children, "width"@, "1"@) {
            Err(er) => Err(er),
            Ok(width) => Ok(
                crate::views::LineStyleV {
                    id: id_of(e.attrs),
                    color: str_field(e.children, "color"@, "ffffffff"@),
                    color_mode,
                    width,
                },
            ),
        },
    }
}

pub open spec fn interpret_poly_style(e: ElementV) -> Result<crate::views::PolyStyleV, KmlErrorV> {
    match color_mode_field(e.children) {
        Err(er) => Err(er),
        Ok(color_mode) => Ok(
            crate::views::PolyStyleV {
                id: id_of(e.attrs),
                color: str_field(e.children, "color"@, "ffffffff"@),
                color_mode,
                fill: bool_field(e.children, "fill"@, true),
                outline: bool_field(e.children, "outline"@, true),
            },
        ),
    }
}

pub open spec fn interpret_list_style(e: ElementV) -> Result<crate::views::ListStyleV, KmlErrorV> {
    match num_field(e.children, "maxSnippetLines"@, "2"@) {
        Err(er) => Err(er),
        Ok(max_snippet_lines) => Ok(
            crate::views::ListStyleV {
                id: id_of(e.attrs),
                bg_color: str_field(e.children, "bgColor"@, "ffffffff"@),
                max_snippet_lines,
            },
        ),
    }
}

pub open spec fn interpret_style(e: ElementV) -> Result<crate::views::StyleV, KmlErrorV> {
    let icon_r = match first_child(e.children, "IconStyle"@) {
        None => Ok(None),
        Some(i) => match interpret_icon_style(i) {
            Err(er) => Err(er),
            Ok(s) => Ok(Some(s)),
        },
    };
    let label_r = match first_child(e.children, "LabelStyle"@) {
        None => Ok(None),
        Some(l) => match interpret_label_style(l) {
            Err(er) => Err(er),
            Ok(s) => Ok(Some(s)),
        },
    };
    let line_r = match first_child(e.children, "LineStyle"@) {
        None => Ok(None),
        Some(l) => match interpret_line_style(l) {
            Err(er) => Err(er),
            Ok(s) => Ok(Some(s)),
        },
    };
    let poly_r = match first_child(e.children, "PolyStyle"@) {
        None => Ok(None),
        Some(p) => match interpret_poly_style(p) {
            Err(er) => Err(er),
            Ok(s) => Ok(Some(s)),
        },
    };
    let list_r = match first_child(e.children, "ListStyle"@) {
        None => Ok(None),
        Some(l) => match interpret_list_style(l) {
            Err(er) => Err(er),
            Ok(s) => Ok(Some(s)),
        },
    };
    match icon_r {
        Err(er) => Err(er),
        Ok(icon) => match label_r {
            Err(er) => Err(er),
            Ok(label) => match line_r {
                Err(er) => Err(er),
                Ok(line) => match poly_r {
                    Err(er) => Err(er),
                    Ok(poly) => match list_r {
                        Err(er) => Err(er),
                        Ok(list) => Ok(
                            crate::views::StyleV {
                                id: id_of(e.attrs),
                                balloon: match first_child(e.children, "BalloonStyle"@) {
                                    None => None,
                                    Some(b) => Some(interpret_balloon(b)),
                                },
                                icon,
                                label,
                                line,
                                poly,
                                list,
                            },
                        ),
                    },
                },
            },
        },
    }
}

pub open spec fn interpret_pair(e: ElementV) -> crate::views::PairV {
    crate::views::PairV {
        key: str_field(e.children, "key"@, Seq::empty()),
        style_url: str_field(e.children, "styleUrl"@, Seq::empty()),
        attrs: e.attrs,
    }
}

/// The pairs of a style map, in order; other children are ignored.
pub open spec fn pairs_of(s: Seq<ElementV>) -> Seq<crate::views::PairV>
    decreases s.len(),
{
    if s.len() == 0 {
        Seq::empty()
    } else if s[0].name == "Pair"@ {
        seq![interpret_pair(s[0])] + pairs_of(s.drop_first())
    } else {
        pairs_of(s.drop_first())
    }
}

pub open spec fn interpret_style_map(e: ElementV) -> crate::views::StyleMapV {
    crate::views::StyleMapV { id: id_of(e.attrs), pairs: pairs_of(e.children) }
}

pub open spec fn interpret_link(e: ElementV) -> Result<crate::views::LinkV, KmlErrorV> {
    match refresh_mode_field(e.children) {
        Err(er) => Err(er),
        Ok(refresh_mode) => match num_field(e.children, "refreshInterval"@, "4"@) {
            Err(er) => Err(er),
            Ok(refresh_interval) => match view_refresh_mode_field(e.children) {
                Err(er) => Err(er),
                Ok(view_refresh_mode) => match num_field(e.children, "viewRefreshTime"@, "4"@) {
                    Err(er) => Err(er),
                    Ok(view_refresh_time) => match num_field(
                        e.children,
                        "viewBoundScale"@,
                        "1"@,
                    ) {
                        Err(er) => Err(er),
                        Ok(view_bound_scale) => Ok(
                            crate::views::LinkV {
                                href: field_text(e.children, "href"@),
                                refresh_mode,
                                refresh_interval,
                                view_refresh_mode,
                                view_refresh_time,
                                view_bound_scale,
                                view_format: field_text(e.children, "viewFormat"@),
                                http_query: field_text(e.children, "httpQuery"@),
                                attrs: e.attrs,
                            },
                        ),
                    },
                },
            },
        },
    }
}

pub open spec fn interpret_alias(e: ElementV) -> crate::views::AliasV {
    crate::views::AliasV {
        target_href: field_text(e.children, "targetHref"@),
        source_href: field_text(e.children, "sourceHref"@),
        attrs: e.attrs,
    }
}

/// The aliases of a resource map, in order; other children ignored.
pub open spec fn aliases_of(s: Seq<ElementV>) -> Seq<crate::views::AliasV>
    decreases s.len(),
{
    if s.len() == 0 {
        Seq::empty()
    } else if s[0].name == "Alias"@ {
        seq![interpret_alias(s[0])] + aliases_of(s.drop_first())
    } else {
        aliases_of(s.drop_first())
    }
}

pub open spec fn interpret_simple_data(e: ElementV) -> crate::views::SimpleDataV {
    crate::views::SimpleDataV {
        value: match e.content {
            None => Seq::empty(),
            Some(t) => t,
        },
        attrs: e.attrs,
    }
}

/// The `value` children of a simple array, in order.
pub open spec fn values_of(s: Seq<ElementV>) -> Seq<Seq<char>>
    decreases s.len(),
{
    if s.len() == 0 {
        Seq::empty()
    } else if s[0].name == "value"@ {
        seq![
            match s[0].content {
                None => Seq::<char>::empty(),
                Some(t) => t,
            },
        ] + values_of(s.drop_first())
    } else {
        values_of(s.drop_first())
    }
}

pub open spec fn interpret_simple_array_data(e: ElementV) -> crate::views::SimpleArrayDataV {
    crate::views::SimpleArrayDataV { values: values_of(e.children), attrs: e.attrs }
}

/// The simple-data children of a schema-data element, in order.
pub open spec fn data_of(s: Seq<ElementV>) -> Seq<crate::views::SimpleDataV>
    decreases s.len(),
{
    if s.len() == 0 {
        Seq::empty()
    } else if s[0].name == "SimpleData"@ {
        seq![interpret_simple_data(s[0])] + data_of(s.drop_first())
    } else {
        data_of(s.drop_first())
    }
}

/// The simple-array children of a schema-data element, in order.
pub open spec fn arrays_of(s: Seq<ElementV>) -> Seq<crate::views::SimpleArrayDataV>
    decreases s.len(),
{
    if s.len() == 0 {
        Seq::empty()
    } else if s[0].name == "SimpleArrayData"@ {
        seq![interpret_simple_array_data(s[0])] + arrays_of(s.drop_first())
    } else {
        arrays_of(s.drop_first())
    }
}

pub open spec fn interpret_schema_data(e: ElementV) -> crate::views::SchemaDataV {
    crate::views::SchemaDataV {
        data: data_of(e.children),
        arrays: arrays_of(e.children),
        attrs: e.attrs,
    }
}

/// A geometry as a top-level node.
pub open spec fn kml_of_geometry(g: crate::views::GeometryV) -> KmlV {
    match g {
        crate::views::GeometryV::Point(p) => KmlV::Point(p),
        crate::views::GeometryV::LineString(l) => KmlV::LineString(l),
        crate::views::GeometryV::LinearRing(l) => KmlV::LinearRing(l),
        crate::views::GeometryV::Polygon(p) => KmlV::Polygon(p),
        crate::views::GeometryV::MultiGeometry(m) => KmlV::MultiGeometry(m),
    }
}

/// Interpret a raw element as a typed node.  Every unrecognized tag
/// folds losslessly into the generic element variant.
pub open spec fn spec_interpret(e: ElementV) -> Result<KmlV, KmlErrorV>
    decreases e,
{
    if e.name == "kml"@ {
        match interpret_list(e.children) {
            Err(er) => Err(er),
            Ok(els) => Ok(
                KmlV::KmlDocument(crate::views::KmlDocumentV { attrs: e.attrs, elements: els }),
            ),
        }
    } else if e.name == "Document"@ {
        match interpret_list(e.children) {
            Err(er) => Err(er),
            Ok(els) => Ok(KmlV::Document { attrs: e.attrs, elements: els }),
        }
    } else if e.name == "Folder"@ {
        match interpret_list(e.children) {
            Err(er) => Err(er),
            Ok(els) => Ok(KmlV::Folder { attrs: e.attrs, elements: els }),
        }
    } else if is_geom_name(e.name) {
        match spec_interpret_geometry(e) {
            Err(er) => Err(er),
            Ok(g) => Ok(kml_of_geometry(g)),
        }
    } else if e.name == "Scale"@ {
        match interpret_scale(e) {
            Err(er) => Err(er),
            Ok(v) => Ok(KmlV::Scale(v)),
        }
    } else if e.name == "Orientation"@ {
        match interpret_orientation(e) {
            Err(er) => Err(er),
            Ok(v) => Ok(KmlV::Orientation(v)),
        }
    } else if e.name == "Location"@ {
        match interpret_location(e) {
            Err(er) => Err(er),
            Ok(v) => Ok(KmlV::Location(v)),
        }
    } else if e.name == "Placemark"@ {
        match interpret_placemark(e) {
            Err(er) => Err(er),
            Ok(v) => Ok(KmlV::Placemark(v)),
        }
    } else if e.name == "Style"@ {
        match interpret_style(e) {
            Err(er) => Err(er),
            Ok(v) => Ok(KmlV::Style(v)),
        }
    } else if e.name == "StyleMap"@ {
        Ok(KmlV::StyleMap(interpret_style_map(e)))
    } else if e.name == "Pair"@ {
        Ok(KmlV::Pair(interpret_pair(e)))
    } else if e.name == "BalloonStyle"@ {
        Ok(KmlV::BalloonStyle(interpret_balloon(e)))
    } else if e.name == "IconStyle"@ {
        match interpret_icon_style(e) {
            Err(er) => Err(er),
            Ok(v) => Ok(KmlV::IconStyle(v)),
        }
    } else if e.name == "LabelStyle"@ {
        match interpret_label_style(e) {
            Err(er) => Err(er),
            Ok(v) => Ok(KmlV::LabelStyle(v)),
        }
    } else if e.name == "LineStyle"@ {
        match interpret_line_style(e) {
            Err(er) => Err(er),
            Ok(v) => Ok(KmlV::LineStyle(v)),
        }
    } else if e.name == "PolyStyle"@ {
        match interpret_poly_style(e) {
            Err(er) => Err(er),
            Ok(v) => Ok(KmlV::PolyStyle(v)),
        }
    } else if e.name == "ListStyle"@ {
        match interpret_list_style(e) {
            Err(er) => Err(er),
            Ok(v) => Ok(KmlV::ListStyle(v)),
        }
    } else if e.name == "Icon"@ {
        match interpret_link(e) {
            Err(er) => Err(er),
            Ok(v) => Ok(KmlV::LinkTypeIcon(v)),
        }
    } else if e.name == "Link"@ {
        match interpret_link(e) {
            Err(er) => Err(er),
            Ok(v) => Ok(KmlV::Link(v)),
        }
    } else if e.name == "ResourceMap"@ {
        Ok(
            KmlV::ResourceMap(
                crate::views::ResourceMapV { aliases: aliases_of(e.children), attrs: e.attrs },
            ),
        )
    } else if e.name == "Alias"@ {
        Ok(KmlV::Alias(interpret_alias(e)))
    } else if e.name == "SchemaData"@ {
        Ok(KmlV::SchemaData(interpret_schema_data(e)))
    } else if e.name == "SimpleArrayData"@ {
        Ok(KmlV::SimpleArrayData(interpret_simple_array_data(e)))
    } else if e.name == "SimpleData"@ {
        Ok(KmlV::SimpleData(interpret_simple_data(e)))
    } else {
        Ok(KmlV::Element(e))
    }
}

/// Interpret a container's children, failing fast.
pub open spec fn interpret_list(s: Seq<ElementV>) -> Result<Seq<KmlV>, KmlErrorV>
    decreases s,
{
    if s.len() == 0 {
        Ok(Seq::empty())
    } else {
        match spec_interpret(s[0]) {
            Err(er) => Err(er),
            Ok(k) => match interpret_list(s.drop_first()) {
                Err(er) => Err(er),
                Ok(ks) => Ok(seq![k] + ks),
            },
        }
    }
}

/// What decoding an event stream yields, end to end.
pub open spec fn spec_decode(evs: Seq<crate::xml::EventV>) -> Result<KmlV, KmlErrorV> {
    match crate::parse::spec_parse_events(evs) {
        Err(er) => Err(er),
        Ok(el) => spec_interpret(el),
    }
}

// -------------------------------------------------------------------
// Executable field extraction.
// -------------------------------------------------------------------

/// Find the first child with the given tag.
#[verifier::loop_isolation(false)]
fn find_child<'a>(children: &'a Vec<Element>, name: &str) -> (r: Option<&'a Element>)
    ensures
        match r {
            Some(c) => first_child(elems_view(children@), name@) == Some(c@),
            None => first_child(elems_view(children@), name@) is None,
        },
{
    let ghost ev = elems_view(children@);
    proof {
        lemma_elems_view(children@);
        assert(ev.skip(0) =~= ev);
    }
    let mut i: usize = 0;
    while i < children.len()
        invariant
            i <= children.len(),
            first_child(ev, name@) == first_child(ev.skip(i as int), name@),
        decreases children.len() - i,
    {
        proof {
            assert(ev.skip(i as int)[0] == ev[i as int]);
        }
        if str_eq(children[i].name.as_str(), name) {
            return Some(&children[i]);
        }
        proof {
            assert(ev.skip(i as int).drop_first() =~= ev.skip(i as int + 1));
        }
        i = i + 1;
    }
    None
}

/// Find the first attribute with the given key.
#[verifier::loop_isolation(false)]
fn attr_get<'a>(attrs: &'a Vec<(String, String)>, key: &str) -> (r: Option<&'a String>)
    ensures
        match r {
            Some(v) => attr_of(attrs.deep_view(), key@) == Some(v@),
            None => attr_of(attrs.deep_view(), key@) is None,
        },
{
    let ghost av = attrs.deep_view();
    proof {
        assert(av.skip(0) =~= av);
    }
    let mut i: usize = 0;
    while i < attrs.len()
        invariant
            i <= attrs.len(),
            av.len() == attrs@.len(),
            attr_of(av, key@) == attr_of(av.skip(i as int), key@),
        decreases attrs.len() - i,
    {
        proof {
            assert(av.skip(i as int)[0] == av[i as int]);
            assert(av[i as int] == (attrs@[i as int].0@, attrs@[i as int].1@));
        }
        if str_eq(attrs[i].0.as_str(), key) {
            return Some(&attrs[i].1);
        }
        proof {
            assert(av.skip(i as int).drop_first() =~= av.skip(i as int + 1));
        }
        i = i + 1;
    }
    None
}

/// The text of a named field, cloned out.
fn field_string(children: &Vec<Element>, name: &str) -> (r: Option<String>)
    ensures
        crate::views::opt_str(r) == field_text(elems_view(children@), name@),
{
    match find_child(children, name) {
        None => None,
        Some(c) => match &c.content {
            None => None,
            Some(t) => Some(t.clone()),
        },
    }
}

/// A numeric field with a default.
fn num_field_exec(children: &Vec<Element>, name: &str, dflt: &str) -> (r: Result<
    KmlNum,
    KmlError,
>)
    requires
        valid_number(dflt@),
    ensures
        match (r, num_field(elems_view(children@), name@, dflt@)) {
            (Ok(n), Ok(t)) => n@ == t && n.wf(),
            (Err(e), Err(ev)) => e@ == ev,
            _ => false,
        },
{
    match field_string(children, name) {
        None => Ok(KmlNum::from_literal(dflt)),
        Some(t) => match KmlNum::from_text(t.as_str()) {
            Some(n) => Ok(n),
            None => Err(KmlError::NumericParse(t)),
        },
    }
}

/// A boolean field with a default; present text is true exactly when
/// it is `"1"`.
fn bool_field_exec(children: &Vec<Element>, name: &str, dflt: bool) -> (r: bool)
    ensures
        r == bool_field(elems_view(children@), name@, dflt),
{
    match field_string(children, name) {
        None => dflt,
        Some(t) => str_eq(t.as_str(), "1"),
    }
}

/// A string field with a default.
fn str_field_exec(children: &Vec<Element>, name: &str, dflt: &str) -> (r: String)
    ensures
        r@ == str_field(elems_view(children@), name@, dflt@),
{
    match field_string(children, name) {
        None => dflt.to_owned(),
        Some(t) => t,
    }
}

/// The altitude-mode field.
fn am_field_exec(children: &Vec<Element>) -> (r: Result<AltitudeMode, KmlError>)
    ensures
        match (r, am_field(elems_view(children@))) {
            (Ok(m), Ok(mv)) => m == mv,
            (Err(e), Err(ev)) => e@ == ev,
            _ => false,
        },
{
    match field_string(children, "altitudeMode") {
        None => Ok(AltitudeMode::ClampToGround),
        Some(t) => match AltitudeMode::from_text(t.as_str()) {
            Some(m) => Ok(m),
            None => Err(KmlError::UnexpectedElement(t)),
        },
    }
}

/// The optional refresh-mode field.
fn refresh_mode_field_exec(children: &Vec<Element>) -> (r: Result<Option<RefreshMode>, KmlError>)
    ensures
        match (r, refresh_mode_field(elems_view(children@))) {
            (Ok(m), Ok(mv)) => m == mv,
            (Err(e), Err(ev)) => e@ == ev,
            _ => false,
        },
{
    match field_string(children, "refreshMode") {
        None => Ok(None),
        Some(t) => match RefreshMode::from_text(t.as_str()) {
            Some(m) => Ok(Some(m)),
            None => Err(KmlError::UnexpectedElement(t)),
        },
    }
}

/// The optional view-refresh-mode field.
fn view_refresh_mode_field_exec(children: &Vec<Element>) -> (r: Result<
    Option<ViewRefreshMode>,
    KmlError,
>)
    ensures
        match (r, view_refresh_mode_field(elems_view(children@))) {
            (Ok(m), Ok(mv)) => m == mv,
            (Err(e), Err(ev)) => e@ == ev,
            _ => false,
        },
{
    match field_string(children, "viewRefreshMode") {
        None => Ok(None),
        Some(t) => match ViewRefreshMode::from_text(t.as_str()) {
            Some(m) => Ok(Some(m)),
            None => Err(KmlError::UnexpectedElement(t)),
        },
    }
}

/// The colour-mode field.
fn color_mode_field_exec(children: &Vec<Element>) -> (r: Result<ColorMode, KmlError>)
    ensures
        match (r, color_mode_field(elems_view(children@))) {
            (Ok(m), Ok(mv)) => m == mv,
            (Err(e), Err(ev)) => e@ == ev,
            _ => false,
        },
{
    match field_string(children, "colorMode") {
        None => Ok(ColorMode::Default),
        Some(t) => match ColorMode::from_text(t.as_str()) {
            Some(m) => Ok(m),
            None => Err(KmlError::UnexpectedElement(t)),
        },
    }
}

/// A unit-valued tag attribute.
fn units_attr_exec(attrs: &Vec<(String, String)>, key: &str) -> (r: Result<Units, KmlError>)
    ensures
        match (r, units_attr(attrs.deep_view(), key@)) {
            (Ok(u), Ok(uv)) => u == uv,
            (Err(e), Err(ev)) => e@ == ev,
            _ => false,
        },
{
    match attr_get(attrs, key) {
        None => Ok(Units::Fraction),
        Some(t) => match Units::from_text(t.as_str()) {
            Some(u) => Ok(u),
            None => Err(KmlError::UnexpectedElement(t.clone())),
        },
    }
}

/// A numeric tag attribute with a default.
fn num_attr_exec(attrs: &Vec<(String, String)>, key: &str, dflt: &str) -> (r: Result<
    KmlNum,
    KmlError,
>)
    requires
        valid_number(dflt@),
    ensures
        match (r, num_attr(attrs.deep_view(), key@, dflt@)) {
            (Ok(n), Ok(t)) => n@ == t,
            (Err(e), Err(ev)) => e@ == ev,
            _ => false,
        },
{
    match attr_get(attrs, key) {
        None => Ok(KmlNum::from_literal(dflt)),
        Some(t) => match KmlNum::from_text(t.as_str()) {
            Some(n) => Ok(n),
            None => Err(KmlError::NumericParse(t.clone())),
        },
    }
}

/// The coordinate list field.
fn coords_field_exec(children: &Vec<Element>) -> (r: Result<Vec<Coord>, KmlError>)
    ensures
        match (r, coords_field(elems_view(children@))) {
            (Ok(cs), Ok(cvs)) => crate::views::coords_view(cs@) == cvs,
            (Err(e), Err(ev)) => e@ == ev,
            _ => false,
        },
{
    match field_string(children, "coordinates") {
        None => {
            let cs: Vec<Coord> = Vec::new();
            proof {
                assert(crate::views::coords_view(cs@) =~= Seq::<CoordV>::empty());
            }
            Ok(cs)
        },
        Some(t) => {
            let v = str_chars(t.as_str());
            crate::txt::parse_coords(&v)
        },
    }
}

/// The element id from the `id` tag attribute.
fn id_exec(attrs: &Vec<(String, String)>) -> (r: String)
    ensures
        r@ == id_of(attrs.deep_view()),
{
    match attr_get(attrs, "id") {
        None => {
            let r = String::new();
            proof {
                assert(r@ =~= Seq::<char>::empty());
            }
            r
        },
        Some(v) => v.clone(),
    }
}

// -------------------------------------------------------------------
// Executable per-type decoding.
// -------------------------------------------------------------------

fn decode_scale(e: &Element) -> (r: Result<Scale, KmlError>)
    ensures
        match (r, interpret_scale(e@)) {
            (Ok(v), Ok(sv)) => v@ == sv,
            (Err(er), Err(ev)) => er@ == ev,
            _ => false,
        },
{
    let x = match num_field_exec(&e.children, "x", num_one()) {
        Ok(n) => n,
        Err(er) => {
            return Err(er);
        },
    };
    let y = match num_field_exec(&e.children, "y", num_one()) {
        Ok(n) => n,
        Err(er) => {
            return Err(er);
        },
    };
    let z = match num_field_exec(&e.children, "z", num_one()) {
        Ok(n) => n,
        Err(er) => {
            return Err(er);
        },
    };
    Ok(Scale { x, y, z })
}

/// The literal `"1"`, shown to be a number once.
fn num_one() -> (r: &'static str)
    ensures
        r@ == "1"@,
        valid_number(r@),
{
    proof {
        reveal_strlit("1");
        assert(crate::model::number_body("1"@) =~= "1"@);
        assert(crate::model::is_digit("1"@[0]));
        assert(crate::model::valid_body_at(crate::model::number_body("1"@), 1));
    }
    "1"
}

/// The literal `"0"`, shown to be a number once.
fn num_zero() -> (r: &'static str)
    ensures
        r@ == "0"@,
        valid_number(r@),
{
    proof {
        reveal_strlit("0");
        assert(crate::model::number_body("0"@) =~= "0"@);
        assert(crate::model::is_digit("0"@[0]));
        assert(crate::model::valid_body_at(crate::model::number_body("0"@), 1));
    }
    "0"
}

/// The literal `"4"`, shown to be a number once.
fn num_four() -> (r: &'static str)
    ensures
        r@ == "4"@,
        valid_number(r@),
{
    proof {
        reveal_strlit("4");
        assert(crate::model::number_body("4"@) =~= "4"@);
        assert(crate::model::is_digit("4"@[0]));
        assert(crate::model::valid_body_at(crate::model::number_body("4"@), 1));
    }
    "4"
}

/// The literal `"2"`, shown to be a number once.
fn num_two() -> (r: &'static str)
    ensures
        r@ == "2"@,
        valid_number(r@),
{
    proof {
        reveal_strlit("2");
        assert(crate::model::number_body("2"@) =~= "2"@);
        assert(crate::model::is_digit("2"@[0]));
        assert(crate::model::valid_body_at(crate::model::number_body("2"@), 1));
    }
    "2"
}

fn decode_orientation(e: &Element) -> (r: Result<Orientation, KmlError>)
    ensures
        match (r, interpret_orientation(e@)) {
            (Ok(v), Ok(sv)) => v@ == sv,
            (Err(er), Err(ev)) => er@ == ev,
            _ => false,
        },
{
    let roll = match num_field_exec(&e.children, "roll", num_zero()) {
        Ok(n) => n,
        Err(er) => {
            return Err(er);
        },
    };
    let tilt = match num_field_exec(&e.children, "tilt", num_zero()) {
        Ok(n) => n,
        Err(er) => {
            return Err(er);
        },
    };
    let heading = match num_field_exec(&e.children, "heading", num_zero()) {
        Ok(n) => n,
        Err(er) => {
            return Err(er);
        },
    };
    Ok(Orientation { roll, tilt, heading })
}

fn decode_location(e: &Element) -> (r: Result<Location, KmlError>)
    ensures
        match (r, interpret_location(e@)) {
            (Ok(v), Ok(sv)) => v@ == sv,
            (Err(er), Err(ev)) => er@ == ev,
            _ => false,
        },
{
    let longitude = match num_field_exec(&e.children, "longitude", num_zero()) {
        Ok(n) => n,
        Err(er) => {
            return Err(er);
        },
    };
    let latitude = match num_field_exec(&e.children, "latitude", num_zero()) {
        Ok(n) => n,
        Err(er) => {
            return Err(er);
        },
    };
    let altitude = match num_field_exec(&e.children, "altitude", num_zero()) {
        Ok(n) => n,
        Err(er) => {
            return Err(er);
        },
    };
    Ok(Location { longitude, latitude, altitude })
}

fn decode_point(e: &Element) -> (r: Result<Point, KmlError>)
    ensures
        match (r, interpret_point(e@)) {
            (Ok(v), Ok(sv)) => v@ == sv,
            (Err(er), Err(ev)) => er@ == ev,
            _ => false,
        },
{
    let am = match am_field_exec(&e.children) {
        Ok(m) => m,
        Err(er) => {
            return Err(er);
        },
    };
    let mut cs = match coords_field_exec(&e.children) {
        Ok(cs) => cs,
        Err(er) => {
            return Err(er);
        },
    };
    let coord = if cs.len() == 0 {
        Coord::default()
    } else {
        cs.remove(0)
    };
    let extrude = bool_field_exec(&e.children, "extrude", false);
    proof {
        if crate::views::coords_view(cs@).len() > 0 {
        }
    }
    Ok(Point { coord, extrude, altitude_mode: am })
}

fn decode_line_string(e: &Element) -> (r: Result<LineString, KmlError>)
    ensures
        match (r, interpret_line_string(e@)) {
            (Ok(v), Ok(sv)) => v@ == sv,
            (Err(er), Err(ev)) => er@ == ev,
            _ => false,
        },
{
    let am = match am_field_exec(&e.children) {
        Ok(m) => m,
        Err(er) => {
            return Err(er);
        },
    };
    let cs = match coords_field_exec(&e.children) {
        Ok(cs) => cs,
        Err(er) => {
            return Err(er);
        },
    };
    Ok(
        LineString {
            coords: cs,
            extrude: bool_field_exec(&e.children, "extrude", false),
            tessellate: bool_field_exec(&e.children, "tessellate", false),
            altitude_mode: am,
        },
    )
}

fn decode_ring(e: &Element) -> (r: Result<LinearRing, KmlError>)
    ensures
        match (r, interpret_ring(e@)) {
            (Ok(v), Ok(sv)) => v@ == sv,
            (Err(er), Err(ev)) => er@ == ev,
            _ => false,
        },
{
    let am = match am_field_exec(&e.children) {
        Ok(m) => m,
        Err(er) => {
            return Err(er);
        },
    };
    let cs = match coords_field_exec(&e.children) {
        Ok(cs) => cs,
        Err(er) => {
            return Err(er);
        },
    };
    Ok(
        LinearRing {
            coords: cs,
            extrude: bool_field_exec(&e.children, "extrude", false),
            tessellate: bool_field_exec(&e.children, "tessellate", false),
            altitude_mode: am,
        },
    )
}

/// The ring a polygon falls back to when a boundary is missing.
fn default_ring_exec() -> (r: LinearRing)
    ensures
        r@ == default_ring(),
{
    let r = LinearRing {
        coords: Vec::new(),
        extrude: false,
        tessellate: false,
        altitude_mode: AltitudeMode::ClampToGround,
    };
    proof {
        assert(crate::views::coords_view(r.coords@) =~= Seq::<CoordV>::empty());
    }
    r
}

#[verifier::loop_isolation(false)]
fn decode_polygon(e: &Element) -> (r: Result<Polygon, KmlError>)
    ensures
        match (r, interpret_polygon(e@)) {
            (Ok(v), Ok(sv)) => v@ == sv,
            (Err(er), Err(ev)) => er@ == ev,
            _ => false,
        },
{
    let am = match am_field_exec(&e.children) {
        Ok(m) => m,
        Err(er) => {
            return Err(er);
        },
    };
    let outer = match find_child(&e.children, "outerBoundaryIs") {
        None => default_ring_exec(),
        Some(ob) => match find_child(&ob.children, "LinearRing") {
            None => default_ring_exec(),
            Some(lr) => match decode_ring(lr) {
                Ok(r0) => r0,
                Err(er) => {
                    return Err(er);
                },
            },
        },
    };
    let mut inner: Vec<LinearRing> = Vec::new();
    match find_child(&e.children, "innerBoundaryIs") {
        None => {
            proof {
                assert(crate::views::rings_view(inner@) =~= Seq::<
                    crate::views::LinearRingV,
                >::empty());
            }
        },
        Some(ib) => {
            let ghost ibv = elems_view(ib.children@);
            proof {
                lemma_elems_view(ib.children@);
                assert(ibv.skip(0) =~= ibv);
                assert(crate::views::rings_view(inner@) =~= Seq::<
                    crate::views::LinearRingV,
                >::empty());
                match rings_of(ibv) {
                    Ok(rest) => {
                        assert(crate::views::rings_view(inner@) + rest =~= rest);
                    },
                    Err(_) => {},
                }
            }
            let mut i: usize = 0;
            while i < ib.children.len()
                invariant
                    i <= ib.children.len(),
                    match rings_of(ibv.skip(i as int)) {
                        Ok(rest) => rings_of(ibv) == Ok::<_, KmlErrorV>(
                            crate::views::rings_view(inner@) + rest,
                        ),
                        Err(er) => rings_of(ibv) == Err::<Seq<crate::views::LinearRingV>, _>(er),
                    },
                decreases ib.children.len() - i,
            {
                proof {
                    assert(ibv.skip(i as int)[0] == ibv[i as int]);
                    assert(ibv.skip(i as int).drop_first() =~= ibv.skip(i as int + 1));
                }
                let c = &ib.children[i];
                if str_eq(c.name.as_str(), "LinearRing") {
                    match decode_ring(c) {
                        Err(er) => {
                            return Err(er);
                        },
                        Ok(r0) => {
                            let ghost prev = crate::views::rings_view(inner@);
                            inner.push(r0);
                            proof {
                                assert(crate::views::rings_view(inner@) =~= prev.push(r0@));
                                match rings_of(ibv.skip(i as int + 1)) {
                                    Ok(rest) => {
                                        assert(prev.push(r0@) + rest =~= prev + (seq![r0@]
                                            + rest));
                                    },
                                    Err(_) => {},
                                }
                            }
                        },
                    }
                }
                i = i + 1;
            }
            proof {
                assert(ibv.skip(ib.children@.len() as int) =~= Seq::<ElementV>::empty());
                assert(crate::views::rings_view(inner@) + Seq::<
                    crate::views::LinearRingV,
                >::empty() =~= crate::views::rings_view(inner@));
            }
        },
    }
    Ok(
        Polygon {
            outer,
            inner,
            extrude: bool_field_exec(&e.children, "extrude", false),
            tessellate: bool_field_exec(&e.children, "tessellate", false),
            altitude_mode: am,
            attrs: crate::encode::clone_attrs(&e.attrs),
        },
    )
}

/// Whether a tag names a geometry.
fn is_geom(name: &str) -> (r: bool)
    ensures
        r == is_geom_name(name@),
{
    str_eq(name, "Point") || str_eq(name, "LineString") || str_eq(name, "LinearRing") || str_eq(
        name,
        "Polygon",
    ) || str_eq(name, "MultiGeometry")
}

#[verifier::loop_isolation(false)]
fn decode_geometry(e: &Element) -> (r: Result<Geometry, KmlError>)
    ensures
        match (r, spec_interpret_geometry(e@)) {
            (Ok(v), Ok(sv)) => v@ == sv,
            (Err(er), Err(ev)) => er@ == ev,
            _ => false,
        },
    decreases *e,
{
    if str_eq(e.name.as_str(), "Point") {
        match decode_point(e) {
            Ok(p) => Ok(Geometry::Point(p)),
            Err(er) => Err(er),
        }
    } else if str_eq(e.name.as_str(), "LineString") {
        match decode_line_string(e) {
            Ok(l) => Ok(Geometry::LineString(l)),
            Err(er) => Err(er),
        }
    } else if str_eq(e.name.as_str(), "LinearRing") {
        match decode_ring(e) {
            Ok(l) => Ok(Geometry::LinearRing(l)),
            Err(er) => Err(er),
        }
    } else if str_eq(e.name.as_str(), "Polygon") {
        match decode_polygon(e) {
            Ok(p) => Ok(Geometry::Polygon(p)),
            Err(er) => Err(er),
        }
    } else {
        let ghost cv = elems_view(e.children@);
        let mut geoms: Vec<Geometry> = Vec::new();
        proof {
            lemma_elems_view(e.children@);
            assert(cv.skip(0) =~= cv);
            assert(crate::views::geoms_view(geoms@) =~= Seq::<crate::views::GeometryV>::empty());
            match geoms_of(cv) {
                Ok(rest) => {
                    assert(crate::views::geoms_view(geoms@) + rest =~= rest);
                },
                Err(_) => {},
            }
        }
        let mut i: usize = 0;
        while i < e.children.len()
            invariant
                i <= e.children.len(),
                match geoms_of(cv.skip(i as int)) {
                    Ok(rest) => geoms_of(cv) == Ok::<_, KmlErrorV>(
                        crate::views::geoms_view(geoms@) + rest,
                    ),
                    Err(er) => geoms_of(cv) == Err::<Seq<crate::views::GeometryV>, _>(er),
                },
            decreases e.children.len() - i,
        {
            proof {
                assert(cv.skip(i as int)[0] == cv[i as int]);
                assert(cv.skip(i as int).drop_first() =~= cv.skip(i as int + 1));
            }
            let c = &e.children[i];
            if is_geom(c.name.as_str()) {
                proof {
                    assert(decreases_to!(*e => e.children));
                    assert(decreases_to!(e.children => e.children@[i as int]));
                }
                match decode_geometry(c) {
                    Err(er) => {
                        return Err(er);
                    },
                    Ok(g) => {
                        let ghost prev = crate::views::geoms_view(geoms@);
                        let ghost gv = g@;
                        let ghost prevvec = geoms@;
                        geoms.push(g);
                        proof {
                            crate::views::lemma_geoms_view(geoms@);
                            crate::views::lemma_geoms_view(prevvec);
                            assert forall|q: int| 0 <= q < geoms@.len() implies
                                crate::views::geoms_view(geoms@)[q] == prev.push(gv)[q] by {
                                if q < prevvec.len() {
                                    assert(geoms@[q] == prevvec[q]);
                                } else {
                                    assert(geoms@[q] == geoms@.last());
                                }
                            }
                            assert(crate::views::geoms_view(geoms@) =~= prev.push(gv));
                            match geoms_of(cv.skip(i as int + 1)) {
                                Ok(rest) => {
                                    assert(prev.push(gv) + rest =~= prev + (seq![gv] + rest));
                                },
                                Err(_) => {},
                            }
                        }
                    },
                }
            }
            i = i + 1;
        }
        proof {
            assert(cv.skip(e.children@.len() as int) =~= Seq::<ElementV>::empty());
            assert(crate::views::geoms_view(geoms@) + Seq::<crate::views::GeometryV>::empty()
                =~= crate::views::geoms_view(geoms@));
        }
        Ok(
            Geometry::MultiGeometry(
                MultiGeometry { geometries: geoms, attrs: crate::encode::clone_attrs(&e.attrs) },
            ),
        )
    }
}

/// The index of the first geometry-tagged child.
#[verifier::loop_isolation(false)]
fn find_geom_idx(children: &Vec<Element>) -> (r: Option<usize>)
    ensures
        match r {
            Some(i) => i < children@.len() && first_geom_idx(elems_view(children@), 0)
                == i as int,
            None => first_geom_idx(elems_view(children@), 0) == -1,
        },
{
    let ghost cv = elems_view(children@);
    proof {
        lemma_elems_view(children@);
    }
    let mut i: usize = 0;
    while i < children.len()
        invariant
            i <= children.len(),
            first_geom_idx(cv, 0) == first_geom_idx(cv, i as int),
        decreases children.len() - i,
    {
        if is_geom(children[i].name.as_str()) {
            return Some(i);
        }
        i = i + 1;
    }
    None
}

/// The placemark children kept verbatim.
#[verifier::loop_isolation(false)]
fn keep_children_exec(children: &Vec<Element>) -> (r: Vec<Element>)
    ensures
        elems_view(r@) == keep_children(elems_view(children@)),
{
    let ghost cv = elems_view(children@);
    proof {
        lemma_elems_view(children@);
        assert(cv.skip(0) =~= cv);
    }
    let mut acc: Vec<Element> = Vec::new();
    proof {
        assert(elems_view(acc@) =~= Seq::<ElementV>::empty());
        assert(elems_view(acc@) + keep_children(cv) =~= keep_children(cv));
    }
    let mut i: usize = 0;
    while i < children.len()
        invariant
            i <= children.len(),
            keep_children(cv) == elems_view(acc@) + keep_children(cv.skip(i as int)),
        decreases children.len() - i,
    {
        proof {
            assert(cv.skip(i as int)[0] == cv[i as int]);
            assert(cv.skip(i as int).drop_first() =~= cv.skip(i as int + 1));
        }
        let c = &children[i];
        if !(str_eq(c.name.as_str(), "name") || str_eq(c.name.as_str(), "description") || is_geom(
            c.name.as_str(),
        )) {
            let ghost prev = elems_view(acc@);
            let copy = crate::encode::clone_element(c);
            proof {
                crate::encode::lemma_elems_view_push(acc@, copy);
            }
            acc.push(copy);
            proof {
                match keep_children(cv.skip(i as int + 1)) {
                    rest => {
                        assert(prev.push(cv[i as int]) + rest =~= prev + (seq![cv[i as int]]
                            + rest));
                    },
                }
            }
        }
        i = i + 1;
    }
    proof {
        assert(cv.skip(children@.len() as int) =~= Seq::<ElementV>::empty());
        assert(elems_view(acc@) + Seq::<ElementV>::empty() =~= elems_view(acc@));
    }
    acc
}

fn decode_placemark(e: &Element) -> (r: Result<Placemark, KmlError>)
    ensures
        match (r, interpret_placemark(e@)) {
            (Ok(v), Ok(sv)) => v@ == sv,
            (Err(er), Err(ev)) => er@ == ev,
            _ => false,
        },
{
    proof {
        lemma_elems_view(e.children@);
    }
    let geometry: Option<Geometry> = match find_geom_idx(&e.children) {
        None => None,
        Some(gi) => match decode_geometry(&e.children[gi]) {
            Err(er) => {
                return Err(er);
            },
            Ok(g) => Some(g),
        },
    };
    let r = Placemark {
        name: field_string(&e.children, "name"),
        description: field_string(&e.children, "description"),
        geometry,
        children: keep_children_exec(&e.children),
    };
    proof {
        let tgt = interpret_placemark(e@);
        let ghost cv = elems_view(e.children@);
        assert(tgt is Ok);
        assert(r@.name == tgt->Ok_0.name);
        assert(r@.description == tgt->Ok_0.description);
        assert(r@.geometry == tgt->Ok_0.geometry);
        assert(r@.children =~= tgt->Ok_0.children);
        assert(r@ =~= tgt->Ok_0);
    }
    Ok(r)
}

fn decode_balloon(e: &Element) -> (r: BalloonStyle)
    ensures
        r@ == interpret_balloon(e@),
{
    let display = match field_string(&e.children, "displayMode") {
        None => true,
        Some(t) => !str_eq(t.as_str(), "hide"),
    };
    BalloonStyle {
        id: id_exec(&e.attrs),
        bg_color: field_string(&e.children, "bgColor"),
        text_color: str_field_exec(&e.children, "textColor", "ffffffff"),
        text: field_string(&e.children, "text"),
        display,
    }
}

fn decode_icon(e: &Element) -> (r: Icon)
    ensures
        r@ == interpret_icon(e@),
{
    let r = Icon { href: str_field_exec(&e.children, "href", "") };
    proof {
        reveal_strlit("");
        assert(""@ =~= Seq::<char>::empty());
    }
    r
}

fn decode_hot_spot(e: &Element) -> (r: Result<HotSpot, KmlError>)
    ensures
        match (r, interpret_hot_spot(e@)) {
            (Ok(v), Ok(sv)) => v@ == sv,
            (Err(er), Err(ev)) => er@ == ev,
            _ => false,
        },
{
    let x = match num_attr_exec(&e.attrs, "x", num_zero()) {
        Ok(n) => n,
        Err(er) => {
            return Err(er);
        },
    };
    let y = match num_attr_exec(&e.attrs, "y", num_zero()) {
        Ok(n) => n,
        Err(er) => {
            return Err(er);
        },
    };
    let xunits = match units_attr_exec(&e.attrs, "xunits") {
        Ok(u) => u,
        Err(er) => {
            return Err(er);
        },
    };
    let yunits = match units_attr_exec(&e.attrs, "yunits") {
        Ok(u) => u,
        Err(er) => {
            return Err(er);
        },
    };
    Ok(HotSpot { x, y, xunits, yunits })
}

fn decode_icon_style(e: &Element) -> (r: Result<IconStyle, KmlError>)
    ensures
        match (r, interpret_icon_style(e@)) {
            (Ok(v), Ok(sv)) => v@ == sv,
            (Err(er), Err(ev)) => er@ == ev,
            _ => false,
        },
{
    let scale = match num_field_exec(&e.children, "scale", num_one()) {
        Ok(n) => n,
        Err(er) => {
            return Err(er);
        },
    };
    let heading = match num_field_exec(&e.children, "heading", num_zero()) {
        Ok(n) => n,
        Err(er) => {
            return Err(er);
        },
    };
    let hot_spot = match find_child(&e.children, "hotSpot") {
        None => None,
        Some(h) => match decode_hot_spot(h) {
            Err(er) => {
                return Err(er);
            },
            Ok(hs) => Some(hs),
        },
    };
    let color_mode = match color_mode_field_exec(&e.children) {
        Ok(m) => m,
        Err(er) => {
            return Err(er);
        },
    };
    let icon = match find_child(&e.children, "Icon") {
        None => {
            let i = Icon { href: String::new() };
            proof {
                assert(i@.href =~= Seq::<char>::empty());
            }
            i
        },
        Some(i) => decode_icon(i),
    };
    Ok(
        IconStyle {
            id: id_exec(&e.attrs),
            scale,
            heading,
            hot_spot,
            color: str_field_exec(&e.children, "color", "ffffffff"),
            color_mode,
            icon,
        },
    )
}

fn decode_label_style(e: &Element) -> (r: Result<LabelStyle, KmlError>)
    ensures
        match (r, interpret_label_style(e@)) {
            (Ok(v), Ok(sv)) => v@ == sv,
            (Err(er), Err(ev)) => er@ == ev,
            _ => false,
        },
{
    let color_mode = match color_mode_field_exec(&e.children) {
        Ok(m) => m,
        Err(er) => {
            return Err(er);
        },
    };
    let scale = match num_field_exec(&e.children, "scale", num_one()) {
        Ok(n) => n,
        Err(er) => {
            return Err(er);
        },
    };
    Ok(
        LabelStyle {
            id: id_exec(&e.attrs),
            color: str_field_exec(&e.children, "color", "ffffffff"),
            color_mode,
            scale,
        },
    )
}

fn decode_line_style(e: &Element) -> (r: Result<LineStyle, KmlError>)
    ensures
        match (r, interpret_line_style(e@)) {
            (Ok(v), Ok(sv)) => v@ == sv,
            (Err(er), Err(ev)) => er@ == ev,
            _ => false,
        },
{
    let color_mode = match color_mode_field_exec(&e.children) {
        Ok(m) => m,
        Err(er) => {
            return Err(er);
        },
    };
    let width = match num_field_exec(&e.children, "width", num_one()) {
        Ok(n) => n,
        Err(er) => {
            return Err(er);
        },
    };
    Ok(
        LineStyle {
            id: id_exec(&e.attrs),
            color: str_field_exec(&e.children, "color", "ffffffff"),
            color_mode,
            width,
        },
    )
}

fn decode_poly_style(e: &Element) -> (r: Result<PolyStyle, KmlError>)
    ensures
        match (r, interpret_poly_style(e@)) {
            (Ok(v), Ok(sv)) => v@ == sv,
            (Err(er), Err(ev)) => er@ == ev,
            _ => false,
        },
{
    let color_mode = match color_mode_field_exec(&e.children) {
        Ok(m) => m,
        Err(er) => {
            return Err(er);
        },
    };
    Ok(
        PolyStyle {
            id: id_exec(&e.attrs),
            color: str_field_exec(&e.children, "color", "ffffffff"),
            color_mode,
            fill: bool_field_exec(&e.children, "fill", true),
            outline: bool_field_exec(&e.children, "outline", true),
        },
    )
}

fn decode_list_style(e: &Element) -> (r: Result<ListStyle, KmlError>)
    ensures
        match (r, interpret_list_style(e@)) {
            (Ok(v), Ok(sv)) => v@ == sv,
            (Err(er), Err(ev)) => er@ == ev,
            _ => false,
        },
{
    let max_snippet_lines = match num_field_exec(&e.children, "maxSnippetLines", num_two()) {
        Ok(n) => n,
        Err(er) => {
            return Err(er);
        },
    };
    Ok(
        ListStyle {
            id: id_exec(&e.attrs),
            bg_color: str_field_exec(&e.children, "bgColor", "ffffffff"),
            max_snippet_lines,
        },
    )
}

fn decode_style(e: &Element) -> (r: Result<Style, KmlError>)
    ensures
        match (r, interpret_style(e@)) {
            (Ok(v), Ok(sv)) => v@ == sv,
            (Err(er), Err(ev)) => er@ == ev,
            _ => false,
        },
{
    let icon = match find_child(&e.children, "IconStyle") {
        None => None,
        Some(i) => match decode_icon_style(i) {
            Err(er) => {
                return Err(er);
            },
            Ok(s0) => Some(s0),
        },
    };
    let label = match find_child(&e.children, "LabelStyle") {
        None => None,
        Some(l) => match decode_label_style(l) {
            Err(er) => {
                return Err(er);
            },
            Ok(s0) => Some(s0),
        },
    };
    let line = match find_child(&e.children, "LineStyle") {
        None => None,
        Some(l) => match decode_line_style(l) {
            Err(er) => {
                return Err(er);
            },
            Ok(s0) => Some(s0),
        },
    };
    let poly = match find_child(&e.children, "PolyStyle") {
        None => None,
        Some(p) => match decode_poly_style(p) {
            Err(er) => {
                return Err(er);
            },
            Ok(s0) => Some(s0),
        },
    };
    let list = match find_child(&e.children, "ListStyle") {
        None => None,
        Some(l) => match decode_list_style(l) {
            Err(er) => {
                return Err(er);
            },
            Ok(s0) => Some(s0),
        },
    };
    let balloon = match find_child(&e.children, "BalloonStyle") {
        None => None,
        Some(b) => Some(decode_balloon(b)),
    };
    Ok(Style { id: id_exec(&e.attrs), balloon, icon, label, line, poly, list })
}

fn decode_pair(e: &Element) -> (r: Pair)
    ensures
        r@ == interpret_pair(e@),
{
    let r = Pair {
        key: str_field_exec(&e.children, "key", ""),
        style_url: str_field_exec(&e.children, "styleUrl", ""),
        attrs: crate::encode::clone_attrs(&e.attrs),
    };
    proof {
        reveal_strlit("");
        assert(""@ =~= Seq::<char>::empty());
        assert(r@ =~~= interpret_pair(e@));
    }
    r
}

#[verifier::loop_isolation(false)]
fn decode_style_map(e: &Element) -> (r: StyleMap)
    ensures
        r@ == interpret_style_map(e@),
{
    let ghost cv = elems_view(e.children@);
    proof {
        lemma_elems_view(e.children@);
        assert(cv.skip(0) =~= cv);
    }
    let mut acc: Vec<Pair> = Vec::new();
    proof {
        assert(crate::views::pairs_view(acc@) =~= Seq::<crate::views::PairV>::empty());
        assert(crate::views::pairs_view(acc@) + pairs_of(cv) =~= pairs_of(cv));
    }
    let mut i: usize = 0;
    while i < e.children.len()
        invariant
            i <= e.children.len(),
            pairs_of(cv) == crate::views::pairs_view(acc@) + pairs_of(cv.skip(i as int)),
        decreases e.children.len() - i,
    {
        proof {
            assert(cv.skip(i as int)[0] == cv[i as int]);
            assert(cv.skip(i as int).drop_first() =~= cv.skip(i as int + 1));
        }
        let c = &e.children[i];
        if str_eq(c.name.as_str(), "Pair") {
            let ghost prev = crate::views::pairs_view(acc@);
            let p = decode_pair(c);
            let ghost pv = p@;
            acc.push(p);
            proof {
                assert(crate::views::pairs_view(acc@) =~= prev.push(pv));
                assert(prev.push(pv) + pairs_of(cv.skip(i as int + 1)) =~= prev + (seq![pv]
                    + pairs_of(cv.skip(i as int + 1))));
            }
        }
        i = i + 1;
    }
    proof {
        assert(cv.skip(e.children@.len() as int) =~= Seq::<ElementV>::empty());
        assert(crate::views::pairs_view(acc@) + Seq::<crate::views::PairV>::empty()
            =~= crate::views::pairs_view(acc@));
    }
    StyleMap { id: id_exec(&e.attrs), pairs: acc }
}

fn decode_link_common(e: &Element) -> (r: Result<Link, KmlError>)
    ensures
        match (r, interpret_link(e@)) {
            (Ok(v), Ok(sv)) => v@ == sv,
            (Err(er), Err(ev)) => er@ == ev,
            _ => false,
        },
{
    let refresh_mode = match refresh_mode_field_exec(&e.children) {
        Ok(m) => m,
        Err(er) => {
            return Err(er);
        },
    };
    let refresh_interval = match num_field_exec(&e.children, "refreshInterval", num_four()) {
        Ok(n) => n,
        Err(er) => {
            return Err(er);
        },
    };
    let view_refresh_mode = match view_refresh_mode_field_exec(&e.children) {
        Ok(m) => m,
        Err(er) => {
            return Err(er);
        },
    };
    let view_refresh_time = match num_field_exec(&e.children, "viewRefreshTime", num_four()) {
        Ok(n) => n,
        Err(er) => {
            return Err(er);
        },
    };
    let view_bound_scale = match num_field_exec(&e.children, "viewBoundScale", num_one()) {
        Ok(n) => n,
        Err(er) => {
            return Err(er);
        },
    };
    Ok(
        Link {
            href: field_string(&e.children, "href"),
            refresh_mode,
            refresh_interval,
            view_refresh_mode,
            view_refresh_time,
            view_bound_scale,
            view_format: field_string(&e.children, "viewFormat"),
            http_query: field_string(&e.children, "httpQuery"),
            attrs: crate::encode::clone_attrs(&e.attrs),
        },
    )
}

fn decode_alias(e: &Element) -> (r: Alias)
    ensures
        r@ == interpret_alias(e@),
{
    Alias {
        target_href: field_string(&e.children, "targetHref"),
        source_href: field_string(&e.children, "sourceHref"),
        attrs: crate::encode::clone_attrs(&e.attrs),
    }
}

#[verifier::loop_isolation(false)]
fn decode_resource_map(e: &Element) -> (r: ResourceMap)
    ensures
        r@.aliases == aliases_of(e@.children),
        r@.attrs == e@.attrs,
{
    let ghost cv = elems_view(e.children@);
    proof {
        lemma_elems_view(e.children@);
        assert(cv.skip(0) =~= cv);
    }
    let mut acc: Vec<Alias> = Vec::new();
    proof {
        assert(crate::views::aliases_view(acc@) =~= Seq::<crate::views::AliasV>::empty());
        assert(crate::views::aliases_view(acc@) + aliases_of(cv) =~= aliases_of(cv));
    }
    let mut i: usize = 0;
    while i < e.children.len()
        invariant
            i <= e.children.len(),
            aliases_of(cv) == crate::views::aliases_view(acc@) + aliases_of(cv.skip(i as int)),
        decreases e.children.len() - i,
    {
        proof {
            assert(cv.skip(i as int)[0] == cv[i as int]);
            assert(cv.skip(i as int).drop_first() =~= cv.skip(i as int + 1));
        }
        let c = &e.children[i];
        if str_eq(c.name.as_str(), "Alias") {
            let ghost prev = crate::views::aliases_view(acc@);
            let a = decode_alias(c);
            let ghost av = a@;
            acc.push(a);
            proof {
                assert(crate::views::aliases_view(acc@) =~= prev.push(av));
                assert(prev.push(av) + aliases_of(cv.skip(i as int + 1)) =~= prev + (seq![av]
                    + aliases_of(cv.skip(i as int + 1))));
            }
        }
        i = i + 1;
    }
    proof {
        assert(cv.skip(e.children@.len() as int) =~= Seq::<ElementV>::empty());
        assert(crate::views::aliases_view(acc@) + Seq::<crate::views::AliasV>::empty()
            =~= crate::views::aliases_view(acc@));
    }
    ResourceMap { aliases: acc, attrs: crate::encode::clone_attrs(&e.attrs) }
}

fn decode_simple_data(e: &Element) -> (r: SimpleData)
    ensures
        r@ == interpret_simple_data(e@),
{
    let value = match &e.content {
        None => String::new(),
        Some(t) => t.clone(),
    };
    let r = SimpleData { value, attrs: crate::encode::clone_attrs(&e.attrs) };
    proof {
        assert(r@ =~~= interpret_simple_data(e@));
    }
    r
}

#[verifier::loop_isolation(false)]
fn decode_simple_array_data(e: &Element) -> (r: SimpleArrayData)
    ensures
        r@ == interpret_simple_array_data(e@),
{
    let ghost cv = elems_view(e.children@);
    proof {
        lemma_elems_view(e.children@);
        assert(cv.skip(0) =~= cv);
    }
    let mut acc: Vec<String> = Vec::new();
    proof {
        assert(acc.deep_view() =~~= Seq::<Seq<char>>::empty());
        assert(acc.deep_view() + values_of(cv) =~= values_of(cv));
    }
    let mut i: usize = 0;
    while i < e.children.len()
        invariant
            i <= e.children.len(),
            values_of(cv) == acc.deep_view() + values_of(cv.skip(i as int)),
        decreases e.children.len() - i,
    {
        proof {
            assert(cv.skip(i as int)[0] == cv[i as int]);
            assert(cv.skip(i as int).drop_first() =~= cv.skip(i as int + 1));
        }
        let c = &e.children[i];
        if str_eq(c.name.as_str(), "value") {
            let ghost prev = acc.deep_view();
            let v = match &c.content {
                None => String::new(),
                Some(t) => t.clone(),
            };
            let ghost vv = v@;
            acc.push(v);
            proof {
                assert(acc@.last().deep_view() =~= vv);
                assert(acc.deep_view() =~~= prev.push(vv));
                assert(prev.push(vv) + values_of(cv.skip(i as int + 1)) =~= prev + (seq![vv]
                    + values_of(cv.skip(i as int + 1))));
            }
        }
        i = i + 1;
    }
    proof {
        assert(cv.skip(e.children@.len() as int) =~= Seq::<ElementV>::empty());
        assert(acc.deep_view() + Seq::<Seq<char>>::empty() =~= acc.deep_view());
    }
    let r = SimpleArrayData { values: acc, attrs: crate::encode::clone_attrs(&e.attrs) };
    proof {
        assert(r@ =~~= interpret_simple_array_data(e@));
    }
    r
}

#[verifier::loop_isolation(false)]
fn decode_schema_data(e: &Element) -> (r: SchemaData)
    ensures
        r@ == interpret_schema_data(e@),
{
    let ghost cv = elems_view(e.children@);
    proof {
        lemma_elems_view(e.children@);
        assert(cv.skip(0) =~= cv);
    }
    let mut data: Vec<SimpleData> = Vec::new();
    proof {
        assert(crate::views::simple_data_view(data@) =~= Seq::<crate::views::SimpleDataV>::empty());
        assert(crate::views::simple_data_view(data@) + data_of(cv) =~= data_of(cv));
    }
    let mut i: usize = 0;
    while i < e.children.len()
        invariant
            i <= e.children.len(),
            data_of(cv) == crate::views::simple_data_view(data@) + data_of(cv.skip(i as int)),
        decreases e.children.len() - i,
    {
        proof {
            assert(cv.skip(i as int)[0] == cv[i as int]);
            assert(cv.skip(i as int).drop_first() =~= cv.skip(i as int + 1));
        }
        let c = &e.children[i];
        if str_eq(c.name.as_str(), "SimpleData") {
            let ghost prev = crate::views::simple_data_view(data@);
            let d = decode_simple_data(c);
            let ghost dv = d@;
            data.push(d);
            proof {
                assert(crate::views::simple_data_view(data@) =~= prev.push(dv));
                assert(prev.push(dv) + data_of(cv.skip(i as int + 1)) =~= prev + (seq![dv]
                    + data_of(cv.skip(i as int + 1))));
            }
        }
        i = i + 1;
    }
    proof {
        assert(cv.skip(e.children@.len() as int) =~= Seq::<ElementV>::empty());
        assert(crate::views::simple_data_view(data@) + Seq::<
            crate::views::SimpleDataV,
        >::empty() =~= crate::views::simple_data_view(data@));
    }
    let mut arrays: Vec<SimpleArrayData> = Vec::new();
    proof {
        assert(crate::views::simple_arrays_view(arrays@) =~= Seq::<
            crate::views::SimpleArrayDataV,
        >::empty());
        assert(crate::views::simple_arrays_view(arrays@) + arrays_of(cv) =~= arrays_of(cv));
    }
    let mut j: usize = 0;
    while j < e.children.len()
        invariant
            j <= e.children.len(),
            arrays_of(cv) == crate::views::simple_arrays_view(arrays@) + arrays_of(
                cv.skip(j as int),
            ),
        decreases e.children.len() - j,
    {
        proof {
            assert(cv.skip(j as int)[0] == cv[j as int]);
            assert(cv.skip(j as int).drop_first() =~= cv.skip(j as int + 1));
        }
        let c = &e.children[j];
        if str_eq(c.name.as_str(), "SimpleArrayData") {
            let ghost prev = crate::views::simple_arrays_view(arrays@);
            let d = decode_simple_array_data(c);
            let ghost dv = d@;
            arrays.push(d);
            proof {
                assert(crate::views::simple_arrays_view(arrays@) =~= prev.push(dv));
                assert(prev.push(dv) + arrays_of(cv.skip(j as int + 1)) =~= prev + (seq![dv]
                    + arrays_of(cv.skip(j as int + 1))));
            }
        }
        j = j + 1;
    }
    proof {
        assert(cv.skip(e.children@.len() as int) =~= Seq::<ElementV>::empty());
        assert(crate::views::simple_arrays_view(arrays@) + Seq::<
            crate::views::SimpleArrayDataV,
        >::empty() =~= crate::views::simple_arrays_view(arrays@));
    }
    SchemaData { data, arrays, attrs: crate::encode::clone_attrs(&e.attrs) }
}

// -------------------------------------------------------------------
// The whole dispatch.
// -------------------------------------------------------------------

/// Interpret one raw element as a typed node, exactly as
/// [`spec_interpret`] reads.
#[verifier::loop_isolation(false)]
#[verifier::rlimit(80)]
pub fn interpret(e: &Element) -> (r: Result<Kml, KmlError>)
    ensures
        match (r, spec_interpret(e@)) {
            (Ok(k), Ok(kv)) => k@ == kv,
            (Err(er), Err(ev)) => er@ == ev,
            _ => false,
        },
    decreases *e,
{
    let name = e.name.as_str();
    if str_eq(name, "kml") {
        match interpret_vec(&e.children) {
            Err(er) => Err(er),
            Ok(els) => Ok(
                Kml::KmlDocument(
                    KmlDocument { attrs: crate::encode::clone_attrs(&e.attrs), elements: els },
                ),
            ),
        }
    } else if str_eq(name, "Document") {
        match interpret_vec(&e.children) {
            Err(er) => Err(er),
            Ok(els) => Ok(
                Kml::Document { attrs: crate::encode::clone_attrs(&e.attrs), elements: els },
            ),
        }
    } else if str_eq(name, "Folder") {
        match interpret_vec(&e.children) {
            Err(er) => Err(er),
            Ok(els) => Ok(
                Kml::Folder { attrs: crate::encode::clone_attrs(&e.attrs), elements: els },
            ),
        }
    } else if is_geom(name) {
        match decode_geometry(e) {
            Err(er) => Err(er),
            Ok(g) => Ok(
                match g {
                    Geometry::Point(p) => Kml::Point(p),
                    Geometry::LineString(l) => Kml::LineString(l),
                    Geometry::LinearRing(l) => Kml::LinearRing(l),
                    Geometry::Polygon(p) => Kml::Polygon(p),
                    Geometry::MultiGeometry(m) => Kml::MultiGeometry(m),
                },
            ),
        }
    } else if str_eq(name, "Scale") {
        match decode_scale(e) {
            Err(er) => Err(er),
            Ok(v) => Ok(Kml::Scale(v)),
        }
    } else if str_eq(name, "Orientation") {
        match decode_orientation(e) {
            Err(er) => Err(er),
            Ok(v) => Ok(Kml::Orientation(v)),
        }
    } else if str_eq(name, "Location") {
        match decode_location(e) {
            Err(er) => Err(er),
            Ok(v) => Ok(Kml::Location(v)),
        }
    } else if str_eq(name, "Placemark") {
        match decode_placemark(e) {
            Err(er) => Err(er),
            Ok(v) => Ok(Kml::Placemark(v)),
        }
    } else if str_eq(name, "Style") {
        match decode_style(e) {
            Err(er) => Err(er),
            Ok(v) => Ok(Kml::Style(v)),
        }
    } else if str_eq(name, "StyleMap") {
        Ok(Kml::StyleMap(decode_style_map(e)))
    } else if str_eq(name, "Pair") {
        Ok(Kml::Pair(decode_pair(e)))
    } else if str_eq(name, "BalloonStyle") {
        Ok(Kml::BalloonStyle(decode_balloon(e)))
    } else if str_eq(name, "IconStyle") {
        match decode_icon_style(e) {
            Err(er) => Err(er),
            Ok(v) => Ok(Kml::IconStyle(v)),
        }
    } else if str_eq(name, "LabelStyle") {
        match decode_label_style(e) {
            Err(er) => Err(er),
            Ok(v) => Ok(Kml::LabelStyle(v)),
        }
    } else if str_eq(name, "LineStyle") {
        match decode_line_style(e) {
            Err(er) => Err(er),
            Ok(v) => Ok(Kml::LineStyle(v)),
        }
    } else if str_eq(name, "PolyStyle") {
        match decode_poly_style(e) {
            Err(er) => Err(er),
            Ok(v) => Ok(Kml::PolyStyle(v)),
        }
    } else if str_eq(name, "ListStyle") {
        match decode_list_style(e) {
            Err(er) => Err(er),
            Ok(v) => Ok(Kml::ListStyle(v)),
        }
    } else if str_eq(name, "Icon") {
        match decode_link_common(e) {
            Err(er) => Err(er),
            Ok(l) => Ok(
                Kml::LinkTypeIcon(
                    LinkTypeIcon {
                        href: l.href,
                        refresh_mode: l.refresh_mode,
                        refresh_interval: l.refresh_interval,
                        view_refresh_mode: l.view_refresh_mode,
                        view_refresh_time: l.view_refresh_time,
                        view_bound_scale: l.view_bound_scale,
                        view_format: l.view_format,
                        http_query: l.http_query,
                        attrs: l.attrs,
                    },
                ),
            ),
        }
    } else if str_eq(name, "Link") {
        match decode_link_common(e) {
            Err(er) => Err(er),
            Ok(l) => Ok(Kml::Link(l)),
        }
    } else if str_eq(name, "ResourceMap") {
        Ok(Kml::ResourceMap(decode_resource_map(e)))
    } else if str_eq(name, "Alias") {
        Ok(Kml::Alias(decode_alias(e)))
    } else if str_eq(name, "SchemaData") {
        Ok(Kml::SchemaData(decode_schema_data(e)))
    } else if str_eq(name, "SimpleArrayData") {
        Ok(Kml::SimpleArrayData(decode_simple_array_data(e)))
    } else if str_eq(name, "SimpleData") {
        Ok(Kml::SimpleData(decode_simple_data(e)))
    } else {
        Ok(Kml::Element(crate::encode::clone_element(e)))
    }
}

/// One more interpreted node on the end of a prefix.
proof fn lemma_interpret_list_step(s: Seq<ElementV>, i: int)
    requires
        0 <= i < s.len(),
    ensures
        interpret_list(s.skip(i)) == (match spec_interpret(s[i]) {
            Err(er) => Err(er),
            Ok(k) => match interpret_list(s.skip(i + 1)) {
                Err(er) => Err(er),
                Ok(ks) => Ok(seq![k] + ks),
            },
        }),
{
    assert(s.skip(i)[0] == s[i]);
    assert(s.skip(i).drop_first() =~= s.skip(i + 1));
}

/// Interpret a container's children, failing fast.
#[verifier::loop_isolation(false)]
pub fn interpret_vec(children: &Vec<Element>) -> (r: Result<Vec<Kml>, KmlError>)
    ensures
        match (r, interpret_list(elems_view(children@))) {
            (Ok(ks), Ok(kvs)) => crate::views::kmls_view(ks@) == kvs,
            (Err(er), Err(ev)) => er@ == ev,
            _ => false,
        },
    decreases children@,
{
    let ghost cv = elems_view(children@);
    proof {
        lemma_elems_view(children@);
        assert(cv.skip(0) =~= cv);
    }
    let mut acc: Vec<Kml> = Vec::new();
    proof {
        crate::views::lemma_kmls_view(acc@);
        assert(crate::views::kmls_view(acc@) =~= Seq::<crate::views::KmlV>::empty());
        match interpret_list(cv) {
            Ok(rest) => {
                assert(crate::views::kmls_view(acc@) + rest =~= rest);
            },
            Err(_) => {},
        }
    }
    let mut i: usize = 0;
    while i < children.len()
        invariant
            i <= children.len(),
            match interpret_list(cv.skip(i as int)) {
                Ok(rest) => interpret_list(cv) == Ok::<_, KmlErrorV>(
                    crate::views::kmls_view(acc@) + rest,
                ),
                Err(er) => interpret_list(cv) == Err::<Seq<crate::views::KmlV>, _>(er),
            },
        decreases children.len() - i,
    {
        proof {
            lemma_interpret_list_step(cv, i as int);
            assert(decreases_to!(children@ => children@[i as int]));
        }
        match interpret(&children[i]) {
            Err(er) => {
                return Err(er);
            },
            Ok(k) => {
                let ghost prev = crate::views::kmls_view(acc@);
                let ghost kv = k@;
                let ghost prevvec = acc@;
                acc.push(k);
                proof {
                    crate::views::lemma_kmls_view(acc@);
                    crate::views::lemma_kmls_view(prevvec);
                    assert forall|q: int| 0 <= q < acc@.len() implies crate::views::kmls_view(
                        acc@,
                    )[q] == prev.push(kv)[q] by {
                        if q < prevvec.len() {
                            assert(acc@[q] == prevvec[q]);
                        } else {
                            assert(acc@[q] == acc@.last());
                        }
                    }
                    assert(crate::views::kmls_view(acc@) =~= prev.push(kv));
                    match interpret_list(cv.skip(i as int + 1)) {
                        Ok(rest) => {
                            assert(prev.push(kv) + rest =~= prev + (seq![kv] + rest));
                        },
                        Err(_) => {},
                    }
                }
            },
        }
        i = i + 1;
    }
    proof {
        assert(cv.skip(children@.len() as int) =~= Seq::<ElementV>::empty());
        assert(crate::views::kmls_view(acc@) + Seq::<crate::views::KmlV>::empty()
            =~= crate::views::kmls_view(acc@));
    }
    Ok(acc)
}

/// Decode an event stream into a typed tree.
pub fn decode_events(evs: &Vec<crate::xml::XmlEvent>) -> (r: Result<Kml, KmlError>)
    ensures
        match (r, spec_decode(crate::xml::events_view(evs@))) {
            (Ok(k), Ok(kv)) => k@ == kv,
            (Err(er), Err(ev)) => er@ == ev,
            _ => false,
        },
{
    match crate::parse::parse_events(evs) {
        Err(er) => Err(er),
        Ok(el) => interpret(&el),
    }
}

/// Decode a KML text: tokenize with the XML tokenizer, then fold the
/// events into the typed tree.
///
/// Success is exactly the typed reading of the text's event stream;
/// an error is either the tokenizer's own `MalformedXml`, or the
/// error that same stream decodes to.
pub fn decode(s: &str) -> (r: Result<Kml, KmlError>)
    ensures
        match r {
            Ok(k) => spec_decode(crate::parse::tokens_of(s@)) == Ok::<KmlV, KmlErrorV>(k@),
            Err(e) => e@ is MalformedXml || spec_decode(crate::parse::tokens_of(s@)) == Err::<
                KmlV,
                KmlErrorV,
            >(e@),
        },
{
    match crate::parse::tokenize(s) {
        Err(er) => Err(er),
        Ok(evs) => decode_events(&evs),
    }
}

} // verus!
