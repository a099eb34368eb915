//! The mathematical model of the document tree: a spec-level mirror of
//! each data type over `Seq<char>` and `Seq`, plus the view functions
//! connecting the executable types to the model.
use vstd::prelude::*;

use crate::model::Alias;
use crate::model::AltitudeMode;
use crate::model::BalloonStyle;
use crate::model::ColorMode;
use crate::model::Coord;
use crate::model::Element;
use crate::model::Geometry;
use crate::model::HotSpot;
use crate::model::Icon;
use crate::model::IconStyle;
use crate::model::Kml;
use crate::model::KmlDocument;
use crate::model::KmlError;
use crate::model::KmlNum;
use crate::model::LabelStyle;
use crate::model::LineString;
use crate::model::LineStyle;
use crate::model::LinearRing;
use crate::model::Link;
use crate::model::LinkTypeIcon;
use crate::model::ListStyle;
use crate::model::Location;
use crate::model::MultiGeometry;
use crate::model::Orientation;
use crate::model::Pair;
use crate::model::Placemark;
use crate::model::Point;
use crate::model::PolyStyle;
use crate::model::Polygon;
use crate::model::ResourceMap;
use crate::model::Scale;
use crate::model::SchemaData;
use crate::model::SimpleArrayData;
use crate::model::SimpleData;
use crate::model::Style;
use crate::model::StyleMap;
use crate::model::Units;
use crate::model::ViewRefreshMode;
use crate::model::RefreshMode;

verus! {

/// Attribute lists at the spec level.
pub type AttrsV = Seq<(Seq<char>, Seq<char>)>;

/// The view of an optional string.
pub open spec fn opt_str(o: Option<String>) -> Option<Seq<char>> {
    match o {
        Some(s) => Some(s@),
        None => None,
    }
}

#[verifier::ext_equal]
pub struct CoordV {
    pub x: Seq<char>,
    pub y: Seq<char>,
    pub z: Option<Seq<char>>,
}

#[verifier::ext_equal]
pub struct PointV {
    pub coord: CoordV,
    pub extrude: bool,
    pub altitude_mode: AltitudeMode,
}

#[verifier::ext_equal]
pub struct LineStringV {
    pub coords: Seq<CoordV>,
    pub extrude: bool,
    pub tessellate: bool,
    pub altitude_mode: AltitudeMode,
}

#[verifier::ext_equal]
pub struct LinearRingV {
    pub coords: Seq<CoordV>,
    pub extrude: bool,
    pub tessellate: bool,
    pub altitude_mode: AltitudeMode,
}

#[verifier::ext_equal]
pub struct PolygonV {
    pub outer: LinearRingV,
    pub inner: Seq<LinearRingV>,
    pub extrude: bool,
    pub tessellate: bool,
    pub altitude_mode: AltitudeMode,
    pub attrs: AttrsV,
}

#[verifier::ext_equal]
pub struct MultiGeometryV {
    pub geometries: Seq<GeometryV>,
    pub attrs: AttrsV,
}

#[verifier::ext_equal]
pub enum GeometryV {
    Point(PointV),
    LineString(LineStringV),
    LinearRing(LinearRingV),
    Polygon(PolygonV),
    MultiGeometry(MultiGeometryV),
}

#[verifier::ext_equal]
pub struct ElementV {
    pub name: Seq<char>,
    pub attrs: AttrsV,
    pub content: Option<Seq<char>>,
    pub children: Seq<ElementV>,
}

#[verifier::ext_equal]
pub struct PlacemarkV {
    pub name: Option<Seq<char>>,
    pub description: Option<Seq<char>>,
    pub geometry: Option<GeometryV>,
    pub children: Seq<ElementV>,
}

#[verifier::ext_equal]
pub struct BalloonStyleV {
    pub id: Seq<char>,
    pub bg_color: Option<Seq<char>>,
    pub text_color: Seq<char>,
    pub text: Option<Seq<char>>,
    pub display: bool,
}

#[verifier::ext_equal]
pub struct HotSpotV {
    pub x: Seq<char>,
    pub y: Seq<char>,
    pub xunits: Units,
    pub yunits: Units,
}

#[verifier::ext_equal]
pub struct IconV {
    pub href: Seq<char>,
}

#[verifier::ext_equal]
pub struct IconStyleV {
    pub id: Seq<char>,
    pub scale: Seq<char>,
    pub heading: Seq<char>,
    pub hot_spot: Option<HotSpotV>,
    pub color: Seq<char>,
    pub color_mode: ColorMode,
    pub icon: IconV,
}

#[verifier::ext_equal]
pub struct LabelStyleV {
    pub id: Seq<char>,
    pub color: Seq<char>,
    pub color_mode: ColorMode,
    pub scale: Seq<char>,
}

#[verifier::ext_equal]
pub struct LineStyleV {
    pub id: Seq<char>,
    pub color: Seq<char>,
    pub color_mode: ColorMode,
    pub width: Seq<char>,
}

#[verifier::ext_equal]
pub struct PolyStyleV {
    pub id: Seq<char>,
    pub color: Seq<char>,
    pub color_mode: ColorMode,
    pub fill: bool,
    pub outline: bool,
}

#[verifier::ext_equal]
pub struct ListStyleV {
    pub id: Seq<char>,
    pub bg_color: Seq<char>,
    pub max_snippet_lines: Seq<char>,
}

#[verifier::ext_equal]
pub struct StyleV {
    pub id: Seq<char>,
    pub balloon: Option<BalloonStyleV>,
    pub icon: Option<IconStyleV>,
    pub label: Option<LabelStyleV>,
    pub line: Option<LineStyleV>,
    pub poly: Option<PolyStyleV>,
    pub list: Option<ListStyleV>,
}

#[verifier::ext_equal]
pub struct PairV {
    pub key: Seq<char>,
    pub style_url: Seq<char>,
    pub attrs: AttrsV,
}

#[verifier::ext_equal]
pub struct StyleMapV {
    pub id: Seq<char>,
    pub pairs: Seq<PairV>,
}

/// Shared spec shape of `<Link>` and the link-shaped `<Icon>`.
#[verifier::ext_equal]
pub struct LinkV {
    pub href: Option<Seq<char>>,
    pub refresh_mode: Option<RefreshMode>,
    pub refresh_interval: Seq<char>,
    pub view_refresh_mode: Option<ViewRefreshMode>,
    pub view_refresh_time: Seq<char>,
    pub view_bound_scale: Seq<char>,
    pub view_format: Option<Seq<char>>,
    pub http_query: Option<Seq<char>>,
    pub attrs: AttrsV,
}

#[verifier::ext_equal]
pub struct AliasV {
    pub target_href: Option<Seq<char>>,
    pub source_href: Option<Seq<char>>,
    pub attrs: AttrsV,
}

#[verifier::ext_equal]
pub struct ResourceMapV {
    pub aliases: Seq<AliasV>,
    pub attrs: AttrsV,
}

#[verifier::ext_equal]
pub struct SimpleDataV {
    pub value: Seq<char>,
    pub attrs: AttrsV,
}

#[verifier::ext_equal]
pub struct SimpleArrayDataV {
    pub values: Seq<Seq<char>>,
    pub attrs: AttrsV,
}

#[verifier::ext_equal]
pub struct SchemaDataV {
    pub data: Seq<SimpleDataV>,
    pub arrays: Seq<SimpleArrayDataV>,
    pub attrs: AttrsV,
}

#[verifier::ext_equal]
pub struct LocationV {
    pub longitude: Seq<char>,
    pub latitude: Seq<char>,
    pub altitude: Seq<char>,
}

#[verifier::ext_equal]
pub struct OrientationV {
    pub roll: Seq<char>,
    pub tilt: Seq<char>,
    pub heading: Seq<char>,
}

#[verifier::ext_equal]
pub struct ScaleV {
    pub x: Seq<char>,
    pub y: Seq<char>,
    pub z: Seq<char>,
}

#[verifier::ext_equal]
pub struct KmlDocumentV {
    pub attrs: AttrsV,
    pub elements: Seq<KmlV>,
}

#[verifier::ext_equal]
pub enum KmlV {
    KmlDocument(KmlDocumentV),
    Scale(ScaleV),
    Orientation(OrientationV),
    Point(PointV),
    Location(LocationV),
    LineString(LineStringV),
    LinearRing(LinearRingV),
    Polygon(PolygonV),
    MultiGeometry(MultiGeometryV),
    Placemark(PlacemarkV),
    Style(StyleV),
    StyleMap(StyleMapV),
    Pair(PairV),
    BalloonStyle(BalloonStyleV),
    IconStyle(IconStyleV),
    Icon(IconV),
    LabelStyle(LabelStyleV),
    LineStyle(LineStyleV),
    PolyStyle(PolyStyleV),
    ListStyle(ListStyleV),
    LinkTypeIcon(LinkV),
    Link(LinkV),
    ResourceMap(ResourceMapV),
    Alias(AliasV),
    SchemaData(SchemaDataV),
    SimpleArrayData(SimpleArrayDataV),
    SimpleData(SimpleDataV),
    Document { attrs: AttrsV, elements: Seq<KmlV> },
    Folder { attrs: AttrsV, elements: Seq<KmlV> },
    Element(ElementV),
}

/// Spec-level mirror of [`KmlError`].
#[verifier::ext_equal]
pub enum KmlErrorV {
    MalformedXml(Seq<char>),
    UnexpectedEof,
    UnexpectedElement(Seq<char>),
    NumericParse(Seq<char>),
    Io(Seq<char>),
}

// -------------------------------------------------------------------
// Recursive view functions.  Recursion goes through explicit sequence
// recursion rather than `map_values`, so that termination follows from
// the structural height of the tree.
// -------------------------------------------------------------------

pub open spec fn elem_view(e: Element) -> ElementV
    decreases e,
{
    ElementV {
        name: e.name@,
        attrs: e.attrs.deep_view(),
        content: opt_str(e.content),
        children: elems_view(e.children@),
    }
}

pub open spec fn elems_view(s: Seq<Element>) -> Seq<ElementV>
    decreases s,
{
    if s.len() == 0 {
        Seq::empty()
    } else {
        seq![elem_view(s[0])] + elems_view(s.drop_first())
    }
}

/// `elems_view` is the element-wise view.
pub proof fn lemma_elems_view(s: Seq<Element>)
    ensures
        elems_view(s).len() == s.len(),
        forall|i: int| 0 <= i < s.len() ==> elems_view(s)[i] == elem_view(#[trigger] s[i]),
    decreases s,
{
    if s.len() > 0 {
        lemma_elems_view(s.drop_first());
        assert forall|i: int| 0 <= i < s.len() implies elems_view(s)[i] == elem_view(#[trigger] s[i]) by {
            if i > 0 {
                assert(elems_view(s)[i] == elems_view(s.drop_first())[i - 1]);
                assert(s.drop_first()[i - 1] == s[i]);
            }
        }
    }
}

pub open spec fn geometry_view(g: Geometry) -> GeometryV
    decreases g,
{
    match g {
        Geometry::Point(p) => GeometryV::Point(p@),
        Geometry::LineString(l) => GeometryV::LineString(l@),
        Geometry::LinearRing(l) => GeometryV::LinearRing(l@),
        Geometry::Polygon(p) => GeometryV::Polygon(p@),
        Geometry::MultiGeometry(m) => GeometryV::MultiGeometry(
            MultiGeometryV { geometries: geoms_view(m.geometries@), attrs: m.attrs.deep_view() },
        ),
    }
}

pub open spec fn geoms_view(s: Seq<Geometry>) -> Seq<GeometryV>
    decreases s,
{
    if s.len() == 0 {
        Seq::empty()
    } else {
        seq![geometry_view(s[0])] + geoms_view(s.drop_first())
    }
}

/// `geoms_view` is the element-wise view.
pub proof fn lemma_geoms_view(s: Seq<Geometry>)
    ensures
        geoms_view(s).len() == s.len(),
        forall|i: int| 0 <= i < s.len() ==> geoms_view(s)[i] == geometry_view(#[trigger] s[i]),
    decreases s,
{
    if s.len() > 0 {
        lemma_geoms_view(s.drop_first());
        assert forall|i: int| 0 <= i < s.len() implies geoms_view(s)[i] == geometry_view(#[trigger] s[i]) by {
            if i > 0 {
                assert(geoms_view(s)[i] == geoms_view(s.drop_first())[i - 1]);
                assert(s.drop_first()[i - 1] == s[i]);
            }
        }
    }
}

pub open spec fn kml_view(k: Kml) -> KmlV
    decreases k,
{
    match k {
        Kml::KmlDocument(d) => KmlV::KmlDocument(
            KmlDocumentV { attrs: d.attrs.deep_view(), elements: kmls_view(d.elements@) },
        ),
        Kml::Scale(s) => KmlV::Scale(s@),
        Kml::Orientation(o) => KmlV::Orientation(o@),
        Kml::Point(p) => KmlV::Point(p@),
        Kml::Location(l) => KmlV::Location(l@),
        Kml::LineString(l) => KmlV::LineString(l@),
        Kml::LinearRing(l) => KmlV::LinearRing(l@),
        Kml::Polygon(p) => KmlV::Polygon(p@),
        Kml::MultiGeometry(m) => KmlV::MultiGeometry(
            MultiGeometryV { geometries: geoms_view(m.geometries@), attrs: m.attrs.deep_view() },
        ),
        Kml::Placemark(p) => KmlV::Placemark(
            PlacemarkV {
                name: opt_str(p.name),
                description: opt_str(p.description),
                geometry: match p.geometry {
                    Some(g) => Some(geometry_view(g)),
                    None => None,
                },
                children: elems_view(p.children@),
            },
        ),
        Kml::Style(s) => KmlV::Style(s@),
        Kml::StyleMap(s) => KmlV::StyleMap(s@),
        Kml::Pair(p) => KmlV::Pair(p@),
        Kml::BalloonStyle(b) => KmlV::BalloonStyle(b@),
        Kml::IconStyle(i) => KmlV::IconStyle(i@),
        Kml::Icon(i) => KmlV::Icon(i@),
        Kml::LabelStyle(l) => KmlV::LabelStyle(l@),
        Kml::LineStyle(l) => KmlV::LineStyle(l@),
        Kml::PolyStyle(p) => KmlV::PolyStyle(p@),
        Kml::ListStyle(l) => KmlV::ListStyle(l@),
        Kml::LinkTypeIcon(i) => KmlV::LinkTypeIcon(i@),
        Kml::Link(l) => KmlV::Link(l@),
        Kml::ResourceMap(r) => KmlV::ResourceMap(r@),
        Kml::Alias(a) => KmlV::Alias(a@),
        Kml::SchemaData(s) => KmlV::SchemaData(s@),
        Kml::SimpleArrayData(s) => KmlV::SimpleArrayData(s@),
        Kml::SimpleData(s) => KmlV::SimpleData(s@),
        Kml::Document { attrs, elements } => KmlV::Document {
            attrs: attrs.deep_view(),
            elements: kmls_view(elements@),
        },
        Kml::Folder { attrs, elements } => KmlV::Folder {
            attrs: attrs.deep_view(),
            elements: kmls_view(elements@),
        },
        Kml::Element(e) => KmlV::Element(elem_view(e)),
    }
}

pub open spec fn kmls_view(s: Seq<Kml>) -> Seq<KmlV>
    decreases s,
{
    if s.len() == 0 {
        Seq::empty()
    } else {
        seq![kml_view(s[0])] + kmls_view(s.drop_first())
    }
}

/// `kmls_view` is the element-wise view.
pub proof fn lemma_kmls_view(s: Seq<Kml>)
    ensures
        kmls_view(s).len() == s.len(),
        forall|i: int| 0 <= i < s.len() ==> kmls_view(s)[i] == kml_view(#[trigger] s[i]),
    decreases s,
{
    if s.len() > 0 {
        lemma_kmls_view(s.drop_first());
        assert forall|i: int| 0 <= i < s.len() implies kmls_view(s)[i] == kml_view(#[trigger] s[i]) by {
            if i > 0 {
                assert(kmls_view(s)[i] == kmls_view(s.drop_first())[i - 1]);
                assert(s.drop_first()[i - 1] == s[i]);
            }
        }
    }
}

// -------------------------------------------------------------------
// View impls for the non-recursive types.
// -------------------------------------------------------------------

impl View for Coord {
    type V = CoordV;

    open spec fn view(&self) -> CoordV {
        CoordV {
            x: self.x@,
            y: self.y@,
            z: match self.z {
                Some(ref n) => Some(n@),
                None => None,
            },
        }
    }
}

/// The view of a coordinate list.
pub open spec fn coords_view(s: Seq<Coord>) -> Seq<CoordV> {
    s.map_values(|c: Coord| c@)
}

impl View for Point {
    type V = PointV;

    open spec fn view(&self) -> PointV {
        PointV { coord: self.coord@, extrude: self.extrude, altitude_mode: self.altitude_mode }
    }
}

impl View for LineString {
    type V = LineStringV;

    open spec fn view(&self) -> LineStringV {
        LineStringV {
            coords: coords_view(self.coords@),
            extrude: self.extrude,
            tessellate: self.tessellate,
            altitude_mode: self.altitude_mode,
        }
    }
}

impl View for LinearRing {
    type V = LinearRingV;

    open spec fn view(&self) -> LinearRingV {
        LinearRingV {
            coords: coords_view(self.coords@),
            extrude: self.extrude,
            tessellate: self.tessellate,
            altitude_mode: self.altitude_mode,
        }
    }
}

/// The view of an inner-ring list.
pub open spec fn rings_view(s: Seq<LinearRing>) -> Seq<LinearRingV> {
    s.map_values(|r: LinearRing| r@)
}

impl View for Polygon {
    type V = PolygonV;

    open spec fn view(&self) -> PolygonV {
        PolygonV {
            outer: self.outer@,
            inner: rings_view(self.inner@),
            extrude: self.extrude,
            tessellate: self.tessellate,
            altitude_mode: self.altitude_mode,
            attrs: self.attrs.deep_view(),
        }
    }
}

impl View for MultiGeometry {
    type V = MultiGeometryV;

    open spec fn view(&self) -> MultiGeometryV {
        MultiGeometryV { geometries: geoms_view(self.geometries@), attrs: self.attrs.deep_view() }
    }
}

impl View for Geometry {
    type V = GeometryV;

    open spec fn view(&self) -> GeometryV {
        geometry_view(*self)
    }
}

impl View for Element {
    type V = ElementV;

    open spec fn view(&self) -> ElementV {
        elem_view(*self)
    }
}

impl View for Placemark {
    type V = PlacemarkV;

    open spec fn view(&self) -> PlacemarkV {
        PlacemarkV {
            name: opt_str(self.name),
            description: opt_str(self.description),
            geometry: match self.geometry {
                Some(ref g) => Some(geometry_view(*g)),
                None => None,
            },
            children: elems_view(self.children@),
        }
    }
}

impl View for BalloonStyle {
    type V = BalloonStyleV;

    open spec fn view(&self) -> BalloonStyleV {
        BalloonStyleV {
            id: self.id@,
            bg_color: opt_str(self.bg_color),
            text_color: self.text_color@,
            text: opt_str(self.text),
            display: self.display,
        }
    }
}

impl View for HotSpot {
    type V = HotSpotV;

    open spec fn view(&self) -> HotSpotV {
        HotSpotV { x: self.x@, y: self.y@, xunits: self.xunits, yunits: self.yunits }
    }
}

impl View for Icon {
    type V = IconV;

    open spec fn view(&self) -> IconV {
        IconV { href: self.href@ }
    }
}

impl View for IconStyle {
    type V = IconStyleV;

    open spec fn view(&self) -> IconStyleV {
        IconStyleV {
            id: self.id@,
            scale: self.scale@,
            heading: self.heading@,
            hot_spot: match self.hot_spot {
                Some(ref h) => Some(h@),
                None => None,
            },
            color: self.color@,
            color_mode: self.color_mode,
            icon: self.icon@,
        }
    }
}

impl View for LabelStyle {
    type V = LabelStyleV;

    open spec fn view(&self) -> LabelStyleV {
        LabelStyleV {
            id: self.id@,
            color: self.color@,
            color_mode: self.color_mode,
            scale: self.scale@,
        }
    }
}

impl View for LineStyle {
    type V = LineStyleV;

    open spec fn view(&self) -> LineStyleV {
        LineStyleV {
            id: self.id@,
            color: self.color@,
            color_mode: self.color_mode,
            width: self.width@,
        }
    }
}

impl View for PolyStyle {
    type V = PolyStyleV;

    open spec fn view(&self) -> PolyStyleV {
        PolyStyleV {
            id: self.id@,
            color: self.color@,
            color_mode: self.color_mode,
            fill: self.fill,
            outline: self.outline,
        }
    }
}

impl View for ListStyle {
    type V = ListStyleV;

    open spec fn view(&self) -> ListStyleV {
        ListStyleV {
            id: self.id@,
            bg_color: self.bg_color@,
            max_snippet_lines: self.max_snippet_lines@,
        }
    }
}

impl View for Style {
    type V = StyleV;

    open spec fn view(&self) -> StyleV {
        StyleV {
            id: self.id@,
            balloon: match self.balloon {
                Some(ref b) => Some(b@),
                None => None,
            },
            icon: match self.icon {
                Some(ref i) => Some(i@),
                None => None,
            },
            label: match self.label {
                Some(ref l) => Some(l@),
                None => None,
            },
            line: match self.line {
                Some(ref l) => Some(l@),
                None => None,
            },
            poly: match self.poly {
                Some(ref p) => Some(p@),
                None => None,
            },
            list: match self.list {
                Some(ref l) => Some(l@),
                None => None,
            },
        }
    }
}

impl View for Pair {
    type V = PairV;

    open spec fn view(&self) -> PairV {
        PairV { key: self.key@, style_url: self.style_url@, attrs: self.attrs.deep_view() }
    }
}

/// The view of a pair list.
pub open spec fn pairs_view(s: Seq<Pair>) -> Seq<PairV> {
    s.map_values(|p: Pair| p@)
}

impl View for StyleMap {
    type V = StyleMapV;

    open spec fn view(&self) -> StyleMapV {
        StyleMapV { id: self.id@, pairs: pairs_view(self.pairs@) }
    }
}

impl View for LinkTypeIcon {
    type V = LinkV;

    open spec fn view(&self) -> LinkV {
        LinkV {
            href: opt_str(self.href),
            refresh_mode: self.refresh_mode,
            refresh_interval: self.refresh_interval@,
            view_refresh_mode: self.view_refresh_mode,
            view_refresh_time: self.view_refresh_time@,
            view_bound_scale: self.view_bound_scale@,
            view_format: opt_str(self.view_format),
            http_query: opt_str(self.http_query),
            attrs: self.attrs.deep_view(),
        }
    }
}

impl View for Link {
    type V = LinkV;

    open spec fn view(&self) -> LinkV {
        LinkV {
            href: opt_str(self.href),
            refresh_mode: self.refresh_mode,
            refresh_interval: self.refresh_interval@,
            view_refresh_mode: self.view_refresh_mode,
            view_refresh_time: self.view_refresh_time@,
            view_bound_scale: self.view_bound_scale@,
            view_format: opt_str(self.view_format),
            http_query: opt_str(self.http_query),
            attrs: self.attrs.deep_view(),
        }
    }
}

impl View for Alias {
    type V = AliasV;

    open spec fn view(&self) -> AliasV {
        AliasV {
            target_href: opt_str(self.target_href),
            source_href: opt_str(self.source_href),
            attrs: self.attrs.deep_view(),
        }
    }
}

/// The view of an alias list.
pub open spec fn aliases_view(s: Seq<Alias>) -> Seq<AliasV> {
    s.map_values(|a: Alias| a@)
}

impl View for ResourceMap {
    type V = ResourceMapV;

    open spec fn view(&self) -> ResourceMapV {
        ResourceMapV { aliases: aliases_view(self.aliases@), attrs: self.attrs.deep_view() }
    }
}

impl View for SimpleData {
    type V = SimpleDataV;

    open spec fn view(&self) -> SimpleDataV {
        SimpleDataV { value: self.value@, attrs: self.attrs.deep_view() }
    }
}

/// The view of a simple-data list.
pub open spec fn simple_data_view(s: Seq<SimpleData>) -> Seq<SimpleDataV> {
    s.map_values(|d: SimpleData| d@)
}

impl View for SimpleArrayData {
    type V = SimpleArrayDataV;

    open spec fn view(&self) -> SimpleArrayDataV {
        SimpleArrayDataV { values: self.values.deep_view(), attrs: self.attrs.deep_view() }
    }
}

/// The view of a simple-array-data list.
pub open spec fn simple_arrays_view(s: Seq<SimpleArrayData>) -> Seq<SimpleArrayDataV> {
    s.map_values(|d: SimpleArrayData| d@)
}

impl View for SchemaData {
    type V = SchemaDataV;

    open spec fn view(&self) -> SchemaDataV {
        SchemaDataV {
            data: simple_data_view(self.data@),
            arrays: simple_arrays_view(self.arrays@),
            attrs: self.attrs.deep_view(),
        }
    }
}

impl View for Location {
    type V = LocationV;

    open spec fn view(&self) -> LocationV {
        LocationV { longitude: self.longitude@, latitude: self.latitude@, altitude: self.altitude@ }
    }
}

impl View for Orientation {
    type V = OrientationV;

    open spec fn view(&self) -> OrientationV {
        OrientationV { roll: self.roll@, tilt: self.tilt@, heading: self.heading@ }
    }
}

impl View for Scale {
    type V = ScaleV;

    open spec fn view(&self) -> ScaleV {
        ScaleV { x: self.x@, y: self.y@, z: self.z@ }
    }
}

impl View for KmlDocument {
    type V = KmlDocumentV;

    open spec fn view(&self) -> KmlDocumentV {
        KmlDocumentV { attrs: self.attrs.deep_view(), elements: kmls_view(self.elements@) }
    }
}

impl View for Kml {
    type V = KmlV;

    open spec fn view(&self) -> KmlV {
        kml_view(*self)
    }
}

impl View for KmlError {
    type V = KmlErrorV;

    open spec fn view(&self) -> KmlErrorV {
        match *self {
            KmlError::MalformedXml(ref s) => KmlErrorV::MalformedXml(s@),
            KmlError::UnexpectedEof => KmlErrorV::UnexpectedEof,
            KmlError::UnexpectedElement(ref s) => KmlErrorV::UnexpectedElement(s@),
            KmlError::NumericParse(ref s) => KmlErrorV::NumericParse(s@),
            KmlError::Io(ref s) => KmlErrorV::Io(s@),
        }
    }
}

} // verus!
