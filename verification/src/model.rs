//! The typed document tree: every KML element variant, the shared leaf
//! types, and the error type of the codec.
use vstd::prelude::*;

verus! {

/// A decimal scalar kept in its canonical text form, e.g. `"3.5"` or `"-170.279"`.
///
/// The codec never computes with coordinates; it only formats and parses
/// them.  Holding the canonical text directly makes formatting exact and
/// keeps round trips lossless.  The text always satisfies
/// [`valid_number`]: an optional sign, at least one digit, and an
/// optional fraction part.
#[derive(Clone, Debug, PartialEq, Eq)]
pub struct KmlNum {
    /// The canonical decimal text; see [`valid_number`].
    pub text: String,
}

impl View for KmlNum {
    type V = Seq<char>;

    open spec fn view(&self) -> Seq<char> {
        self.text@
    }
}

/// A digit character.
pub open spec fn is_digit(c: char) -> bool {
    '0' <= c && c <= '9'
}

/// The digits of a number, after any sign.
pub open spec fn number_body(s: Seq<char>) -> Seq<char> {
    if s.len() > 0 && (s[0] == '+' || s[0] == '-') {
        s.skip(1)
    } else {
        s
    }
}

/// One candidate split of a number body: `k` integer digits, then an
/// optional fraction.
pub open spec fn valid_body_at(body: Seq<char>, k: int) -> bool {
    &&& 1 <= k <= body.len()
    &&& (forall|i: int| 0 <= i < k ==> is_digit(#[trigger] body[i]))
    &&& (k < body.len() ==> {
        &&& body[k] == '.'
        &&& k + 1 < body.len()
        &&& forall|i: int| k < i < body.len() ==> is_digit(#[trigger] body[i])
    })
}

/// The grammar of the scalar text: `['+'|'-'] digit+ ['.' digit+]`.
pub open spec fn valid_number(s: Seq<char>) -> bool {
    exists|k: int| valid_body_at(number_body(s), k)
}

/// Unordered tag-attribute mapping, kept in insertion order.
///
/// Well-formed attribute lists have pairwise distinct keys.
pub open spec fn attrs_wf(a: Seq<(Seq<char>, Seq<char>)>) -> bool {
    forall|i: int, j: int| 0 <= i < j < a.len() ==> (#[trigger] a[i]).0 != (#[trigger] a[j]).0
}

/// How a geometry's altitude relates to the ground.
#[derive(Clone, Copy, Debug, PartialEq, Eq, Structural)]
pub enum AltitudeMode {
    ClampToGround,
    RelativeToGround,
    Absolute,
}

/// When a link target is refreshed.
#[derive(Clone, Copy, Debug, PartialEq, Eq, Structural)]
pub enum RefreshMode {
    OnChange,
    OnInterval,
    OnExpire,
}

/// When a view-dependent link target is refreshed.
#[derive(Clone, Copy, Debug, PartialEq, Eq, Structural)]
pub enum ViewRefreshMode {
    Never,
    OnRequest,
    OnStop,
    OnRegion,
}

/// How a style colour is applied.
#[derive(Clone, Copy, Debug, PartialEq, Eq, Structural)]
pub enum ColorMode {
    Default,
    Normal,
    Random,
}

/// Units of a hot-spot offset.
#[derive(Clone, Copy, Debug, PartialEq, Eq, Structural)]
pub enum Units {
    Fraction,
    Pixels,
    InsetPixels,
}

/// A coordinate triple, formatted as `"x,y"` or `"x,y,z"`.
#[derive(Clone, Debug, PartialEq, Eq)]
pub struct Coord {
    pub x: KmlNum,
    pub y: KmlNum,
    pub z: Option<KmlNum>,
}

/// `<Point>`: one coordinate with the shared geometry properties.
#[derive(Clone, Debug, PartialEq)]
pub struct Point {
    pub coord: Coord,
    pub extrude: bool,
    pub altitude_mode: AltitudeMode,
}

/// `<LineString>`.
#[derive(Clone, Debug, PartialEq)]
pub struct LineString {
    pub coords: Vec<Coord>,
    pub extrude: bool,
    pub tessellate: bool,
    pub altitude_mode: AltitudeMode,
}

/// `<LinearRing>`.
#[derive(Clone, Debug, PartialEq)]
pub struct LinearRing {
    pub coords: Vec<Coord>,
    pub extrude: bool,
    pub tessellate: bool,
    pub altitude_mode: AltitudeMode,
}

/// `<Polygon>`: exactly one outer ring, zero or more inner rings.
#[derive(Clone, Debug, PartialEq)]
pub struct Polygon {
    pub outer: LinearRing,
    pub inner: Vec<LinearRing>,
    pub extrude: bool,
    pub tessellate: bool,
    pub altitude_mode: AltitudeMode,
    pub attrs: Vec<(String, String)>,
}

/// `<MultiGeometry>`: an ordered list of nested geometries.
#[derive(Debug, PartialEq)]
pub struct MultiGeometry {
    pub geometries: Vec<Geometry>,
    pub attrs: Vec<(String, String)>,
}

/// The closed set of geometry variants a placemark may carry.
#[derive(Debug, PartialEq)]
pub enum Geometry {
    Point(Point),
    LineString(LineString),
    LinearRing(LinearRing),
    Polygon(Polygon),
    MultiGeometry(MultiGeometry),
}

/// A free-form element: the lossless escape hatch for vendor and unknown
/// tags, and the raw shape every encoded element takes.
#[derive(Debug, PartialEq)]
pub struct Element {
    pub name: String,
    pub attrs: Vec<(String, String)>,
    pub content: Option<String>,
    pub children: Vec<Element>,
}

/// `<Placemark>`.
#[derive(Debug, PartialEq)]
pub struct Placemark {
    pub name: Option<String>,
    pub description: Option<String>,
    pub geometry: Option<Geometry>,
    pub children: Vec<Element>,
}

/// `<Style>`: id plus zero-or-one of each sub-style.
#[derive(Clone, Debug, PartialEq)]
pub struct Style {
    pub id: String,
    pub balloon: Option<BalloonStyle>,
    pub icon: Option<IconStyle>,
    pub label: Option<LabelStyle>,
    pub line: Option<LineStyle>,
    pub poly: Option<PolyStyle>,
    pub list: Option<ListStyle>,
}

/// `<StyleMap>`.
#[derive(Clone, Debug, PartialEq)]
pub struct StyleMap {
    pub id: String,
    pub pairs: Vec<Pair>,
}

/// `<Pair>`: a key/styleUrl pair of a style map.
#[derive(Clone, Debug, PartialEq)]
pub struct Pair {
    pub key: String,
    pub style_url: String,
    pub attrs: Vec<(String, String)>,
}

/// `<BalloonStyle>`.
#[derive(Clone, Debug, PartialEq)]
pub struct BalloonStyle {
    pub id: String,
    pub bg_color: Option<String>,
    pub text_color: String,
    pub text: Option<String>,
    pub display: bool,
}

/// The hot-spot of an icon style, written as tag attributes.
#[derive(Clone, Debug, PartialEq)]
pub struct HotSpot {
    pub x: KmlNum,
    pub y: KmlNum,
    pub xunits: Units,
    pub yunits: Units,
}

/// `<IconStyle>`.
#[derive(Clone, Debug, PartialEq)]
pub struct IconStyle {
    pub id: String,
    pub scale: KmlNum,
    pub heading: KmlNum,
    pub hot_spot: Option<HotSpot>,
    pub color: String,
    pub color_mode: ColorMode,
    pub icon: Icon,
}

/// The plain `<Icon>` inside an icon style: just an href.
#[derive(Clone, Debug, PartialEq)]
pub struct Icon {
    pub href: String,
}

/// `<LabelStyle>`.
#[derive(Clone, Debug, PartialEq)]
pub struct LabelStyle {
    pub id: String,
    pub color: String,
    pub color_mode: ColorMode,
    pub scale: KmlNum,
}

/// `<LineStyle>`.
#[derive(Clone, Debug, PartialEq)]
pub struct LineStyle {
    pub id: String,
    pub color: String,
    pub color_mode: ColorMode,
    pub width: KmlNum,
}

/// `<PolyStyle>`.
#[derive(Clone, Debug, PartialEq)]
pub struct PolyStyle {
    pub id: String,
    pub color: String,
    pub color_mode: ColorMode,
    pub fill: bool,
    pub outline: bool,
}

/// `<ListStyle>`.
#[derive(Clone, Debug, PartialEq)]
pub struct ListStyle {
    pub id: String,
    pub bg_color: String,
    pub max_snippet_lines: KmlNum,
}

/// The link-shaped `<Icon>` element: an `<Icon>` with the full link field
/// set, as it appears outside an icon style.
#[derive(Clone, Debug, PartialEq)]
pub struct LinkTypeIcon {
    pub href: Option<String>,
    pub refresh_mode: Option<RefreshMode>,
    pub refresh_interval: KmlNum,
    pub view_refresh_mode: Option<ViewRefreshMode>,
    pub view_refresh_time: KmlNum,
    pub view_bound_scale: KmlNum,
    pub view_format: Option<String>,
    pub http_query: Option<String>,
    pub attrs: Vec<(String, String)>,
}

/// `<Link>`.
#[derive(Clone, Debug, PartialEq)]
pub struct Link {
    pub href: Option<String>,
    pub refresh_mode: Option<RefreshMode>,
    pub refresh_interval: KmlNum,
    pub view_refresh_mode: Option<ViewRefreshMode>,
    pub view_refresh_time: KmlNum,
    pub view_bound_scale: KmlNum,
    pub view_format: Option<String>,
    pub http_query: Option<String>,
    pub attrs: Vec<(String, String)>,
}

/// `<ResourceMap>`.
#[derive(Clone, Debug, PartialEq)]
pub struct ResourceMap {
    pub aliases: Vec<Alias>,
    pub attrs: Vec<(String, String)>,
}

/// `<Alias>`.
#[derive(Clone, Debug, PartialEq)]
pub struct Alias {
    pub target_href: Option<String>,
    pub source_href: Option<String>,
    pub attrs: Vec<(String, String)>,
}

/// `<SchemaData>`.
#[derive(Clone, Debug, PartialEq)]
pub struct SchemaData {
    pub data: Vec<SimpleData>,
    pub arrays: Vec<SimpleArrayData>,
    pub attrs: Vec<(String, String)>,
}

/// `<SimpleData>`: one typed value.
#[derive(Clone, Debug, PartialEq)]
pub struct SimpleData {
    pub value: String,
    pub attrs: Vec<(String, String)>,
}

/// `<SimpleArrayData>`: an ordered sequence of `<value>` children.
#[derive(Clone, Debug, PartialEq)]
pub struct SimpleArrayData {
    pub values: Vec<String>,
    pub attrs: Vec<(String, String)>,
}

/// `<Location>`.
#[derive(Clone, Debug, PartialEq)]
pub struct Location {
    pub longitude: KmlNum,
    pub latitude: KmlNum,
    pub altitude: KmlNum,
}

/// `<Orientation>`.
#[derive(Clone, Debug, PartialEq)]
pub struct Orientation {
    pub roll: KmlNum,
    pub tilt: KmlNum,
    pub heading: KmlNum,
}

/// `<Scale>`.
#[derive(Clone, Debug, PartialEq)]
pub struct Scale {
    pub x: KmlNum,
    pub y: KmlNum,
    pub z: KmlNum,
}

/// The root `<kml>` element.
#[derive(Debug, PartialEq)]
pub struct KmlDocument {
    pub attrs: Vec<(String, String)>,
    pub elements: Vec<Kml>,
}

/// The closed tagged union over every element the schema models.
#[derive(Debug, PartialEq)]
pub enum Kml {
    KmlDocument(KmlDocument),
    Scale(Scale),
    Orientation(Orientation),
    Point(Point),
    Location(Location),
    LineString(LineString),
    LinearRing(LinearRing),
    Polygon(Polygon),
    MultiGeometry(MultiGeometry),
    Placemark(Placemark),
    Style(Style),
    StyleMap(StyleMap),
    Pair(Pair),
    BalloonStyle(BalloonStyle),
    IconStyle(IconStyle),
    Icon(Icon),
    LabelStyle(LabelStyle),
    LineStyle(LineStyle),
    PolyStyle(PolyStyle),
    ListStyle(ListStyle),
    LinkTypeIcon(LinkTypeIcon),
    Link(Link),
    ResourceMap(ResourceMap),
    Alias(Alias),
    SchemaData(SchemaData),
    SimpleArrayData(SimpleArrayData),
    SimpleData(SimpleData),
    Document { attrs: Vec<(String, String)>, elements: Vec<Kml> },
    Folder { attrs: Vec<(String, String)>, elements: Vec<Kml> },
    Element(Element),
}

/// Everything that can go wrong while decoding, and the I/O failure an
/// application sink may report around an encode.
#[derive(Debug, PartialEq)]
pub enum KmlError {
    /// The tokenizer rejected the input as lexically ill-formed XML.
    MalformedXml(String),
    /// The event stream ended inside an open element.
    UnexpectedEof,
    /// A sub-element or enumerated value was structurally wrong.
    UnexpectedElement(String),
    /// A coordinate or numeric field failed to parse; carries the token.
    NumericParse(String),
    /// A sink or source failure outside the codec proper.
    Io(String),
}

} // verus!
