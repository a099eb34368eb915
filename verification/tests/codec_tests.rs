use kml::decode;
use kml::model::AltitudeMode;
use kml::model::Coord;
use kml::model::Element;
use kml::model::Geometry;
use kml::model::Kml;
use kml::model::KmlError;
use kml::model::KmlNum;
use kml::model::LineString;
use kml::model::LinearRing;
use kml::model::Placemark;
use kml::model::Point;
use kml::model::PolyStyle;
use kml::model::Polygon;
use kml::model::ColorMode;
use kml::KmlWriter;
use kml::model::BalloonStyle;
use kml::model::HotSpot;
use kml::model::Icon;
use kml::model::IconStyle;
use kml::model::LabelStyle;
use kml::model::Pair;
use kml::model::Style;
use kml::model::StyleMap;
use kml::model::Units;

fn num(s: &str) -> KmlNum {
    KmlNum::from_text(s).unwrap()
}

#[test]
fn coord_text_forms() {
    let with_z = Coord {
        x: num("1"),
        y: num("1"),
        z: Some(num("1")),
    };
    assert_eq!("1,1,1", with_z.to_text());
    let without_z = Coord {
        x: num("1"),
        y: num("1"),
        z: None,
    };
    assert_eq!("1,1", without_z.to_text());
}

#[test]
fn scalar_grammar() {
    assert!(KmlNum::from_text("3.5").is_some());
    assert!(KmlNum::from_text("-170.279").is_some());
    assert!(KmlNum::from_text("+2").is_some());
    assert!(KmlNum::from_text("").is_none());
    assert!(KmlNum::from_text("1.").is_none());
    assert!(KmlNum::from_text(".5").is_none());
    assert!(KmlNum::from_text("two").is_none());
    assert!(KmlNum::from_text("1,2").is_none());
}

#[test]
fn booleans_encode_as_digits() {
    let kml = Kml::PolyStyle(PolyStyle {
        id: "p".to_string(),
        color: "ffffffff".to_string(),
        color_mode: ColorMode::Default,
        fill: true,
        outline: false,
    });
    assert_eq!(
        "<PolyStyle id=\"p\"><color>ffffffff</color><colorMode>default</colorMode>\
         <fill>1</fill><outline>0</outline></PolyStyle>",
        kml.to_string()
    );
}

#[test]
fn encode_is_deterministic() {
    let kml = Kml::Point(Point {
        coord: Coord {
            x: num("1.5"),
            y: num("-2"),
            z: None,
        },
        altitude_mode: AltitudeMode::Absolute,
        extrude: true,
    });
    assert_eq!(kml.to_string(), kml.to_string());
}

#[test]
fn polygon_inner_boundary_wrapper() {
    let ring = LinearRing {
        coords: vec![Coord {
            x: num("0"),
            y: num("0"),
            z: None,
        }],
        extrude: false,
        tessellate: false,
        altitude_mode: AltitudeMode::ClampToGround,
    };
    let kml = Kml::Polygon(Polygon {
        outer: ring_clone(&ring),
        inner: vec![ring_clone(&ring), ring_clone(&ring)],
        extrude: false,
        tessellate: false,
        altitude_mode: AltitudeMode::ClampToGround,
        attrs: Vec::new(),
    });
    let out = kml.to_string();
    // one wrapper, with one LinearRing per inner boundary
    assert_eq!(1, out.matches("<innerBoundaryIs>").count());
    assert_eq!(3, out.matches("<LinearRing>").count());
}

fn ring_clone(r: &LinearRing) -> LinearRing {
    LinearRing {
        coords: r.coords.clone(),
        extrude: r.extrude,
        tessellate: r.tessellate,
        altitude_mode: r.altitude_mode,
    }
}

#[test]
fn round_trip_document() {
    let kml = Kml::Document {
        attrs: vec![("id".to_string(), "doc".to_string())],
        elements: vec![
            Kml::Placemark(Placemark {
                name: Some("A & B".to_string()),
                description: Some("<escaped>".to_string()),
                geometry: Some(Geometry::Point(Point {
                    coord: Coord {
                        x: num("1.5"),
                        y: num("-2"),
                        z: Some(num("0.25")),
                    },
                    altitude_mode: AltitudeMode::RelativeToGround,
                    extrude: true,
                })),
                children: Vec::new(),
            }),
            Kml::LineString(LineString {
                coords: vec![
                    Coord {
                        x: num("1"),
                        y: num("2"),
                        z: None,
                    },
                    Coord {
                        x: num("3"),
                        y: num("4"),
                        z: None,
                    },
                ],
                extrude: false,
                tessellate: true,
                altitude_mode: AltitudeMode::ClampToGround,
            }),
        ],
    };
    let text = kml.to_string();
    let back = decode(text.as_str()).unwrap();
    assert_eq!(kml, back);
}

#[test]
fn unknown_element_is_preserved() {
    let text = "<Document><gx:Tour id=\"t\">hello<gx:stop/></gx:Tour></Document>";
    let parsed = decode(text).unwrap();
    match parsed {
        Kml::Document { elements, .. } => {
            assert_eq!(1, elements.len());
            match &elements[0] {
                Kml::Element(e) => {
                    assert_eq!("gx:Tour", e.name);
                    assert_eq!(vec![("id".to_string(), "t".to_string())], e.attrs);
                    assert_eq!(Some("hello".to_string()), e.content);
                    assert_eq!(1, e.children.len());
                    assert_eq!("gx:stop", e.children[0].name);
                }
                other => panic!("expected a generic element, got {:?}", other),
            }
        }
        other => panic!("expected a document, got {:?}", other),
    }
}

#[test]
fn bad_coordinate_token_is_reported() {
    let out = decode("<Point><coordinates>a,b</coordinates></Point>");
    assert_eq!(Err(KmlError::NumericParse("a,b".to_string())), out);
}

#[test]
fn coordinate_needs_two_fields() {
    let out = decode("<LineString><coordinates>1 2,3</coordinates></LineString>");
    assert_eq!(Err(KmlError::NumericParse("1".to_string())), out);
}

#[test]
fn unknown_altitude_mode_is_reported() {
    let out = decode("<Point><altitudeMode>flying</altitudeMode></Point>");
    assert_eq!(Err(KmlError::UnexpectedElement("flying".to_string())), out);
}

#[test]
fn malformed_xml_is_reported() {
    match decode("<a><b></a>") {
        Err(KmlError::MalformedXml(_)) => {}
        other => panic!("expected a malformed-xml error, got {:?}", other),
    }
}

#[test]
fn empty_input_is_truncated() {
    assert_eq!(Err(KmlError::UnexpectedEof), decode(""));
}

#[test]
fn decoding_applies_defaults() {
    match decode("<Scale></Scale>").unwrap() {
        Kml::Scale(s) => {
            assert_eq!("1", s.x.as_str());
            assert_eq!("1", s.y.as_str());
            assert_eq!("1", s.z.as_str());
        }
        other => panic!("expected a scale, got {:?}", other),
    }
    match decode("<Link></Link>").unwrap() {
        Kml::Link(l) => {
            assert_eq!(None, l.href);
            assert_eq!("4", l.refresh_interval.as_str());
            assert_eq!("4", l.view_refresh_time.as_str());
            assert_eq!("1", l.view_bound_scale.as_str());
        }
        other => panic!("expected a link, got {:?}", other),
    }
}

#[test]
fn text_is_escaped_and_unescaped() {
    let kml = Kml::Element(Element {
        name: "note".to_string(),
        attrs: vec![("q".to_string(), "a\"b".to_string())],
        content: Some("x < y & z".to_string()),
        children: Vec::new(),
    });
    let text = kml.to_string();
    assert!(text.contains("x &lt; y &amp; z"));
    let back = decode(text.as_str()).unwrap();
    assert_eq!(kml, back);
}

#[test]
fn coordinates_split_on_whitespace() {
    match decode("<LineString><coordinates>1,2 3,4\n5,6</coordinates></LineString>").unwrap() {
        Kml::LineString(l) => {
            assert_eq!(3, l.coords.len());
            assert_eq!("3", l.coords[1].x.as_str());
            assert_eq!("6", l.coords[2].y.as_str());
        }
        other => panic!("expected a line string, got {:?}", other),
    }
}

#[test]
fn writer_buffers_each_document() {
    let mut w = KmlWriter::new();
    w.write(&Kml::Scale(kml::model::Scale {
        x: num("1"),
        y: num("1"),
        z: num("1"),
    }))
    .unwrap();
    assert_eq!(
        "<Scale><x>1</x><y>1</y><z>1</z></Scale>",
        w.into_inner()
    );
    let seeded = KmlWriter::from_writer("<!-- head -->".to_string());
    assert_eq!("<!-- head -->", seeded.into_inner());
}

#[test]
fn empty_elements_expand_on_decode() {
    match decode("<Document><Scale/></Document>").unwrap() {
        Kml::Document { elements, .. } => {
            assert_eq!(1, elements.len());
            assert!(matches!(elements[0], Kml::Scale(_)));
        }
        other => panic!("expected a document, got {:?}", other),
    }
}

#[test]
fn style_encodes_and_round_trips() {
    let kml = Kml::Style(Style {
        id: "s1".to_string(),
        balloon: Some(BalloonStyle {
            id: "b".to_string(),
            bg_color: None,
            text_color: "ff0000cc".to_string(),
            text: Some("hi".to_string()),
            display: false,
        }),
        icon: Some(IconStyle {
            id: "i".to_string(),
            scale: num("1.1"),
            heading: num("0"),
            hot_spot: Some(HotSpot {
                x: num("0.5"),
                y: num("0.5"),
                xunits: Units::Fraction,
                yunits: Units::Pixels,
            }),
            color: "ffffffff".to_string(),
            color_mode: ColorMode::Normal,
            icon: Icon {
                href: "http://example.test/icon.png".to_string(),
            },
        }),
        label: Some(LabelStyle {
            id: "l".to_string(),
            color: "ffffffff".to_string(),
            color_mode: ColorMode::Random,
            scale: num("1"),
        }),
        line: None,
        poly: None,
        list: None,
    });
    let text = kml.to_string();
    assert!(text.starts_with("<Style id=\"s1\"><BalloonStyle id=\"b\">"));
    assert!(text.contains("<displayMode>hide</displayMode>"));
    assert!(text.contains(
        "<hotSpot x=\"0.5\" y=\"0.5\" xunits=\"fraction\" yunits=\"pixels\"></hotSpot>"
    ));
    assert!(text.contains("<colorMode>normal</colorMode>"));
    let back = decode(text.as_str()).unwrap();
    assert_eq!(kml, back);
}

#[test]
fn link_round_trips() {
    let kml = Kml::Link(kml::model::Link {
        href: Some("http://example.test/a.kml".to_string()),
        refresh_mode: Some(kml::model::RefreshMode::OnInterval),
        refresh_interval: num("30"),
        view_refresh_mode: None,
        view_refresh_time: num("4"),
        view_bound_scale: num("1.25"),
        view_format: None,
        http_query: Some("v=1".to_string()),
        attrs: Vec::new(),
    });
    let text = kml.to_string();
    assert_eq!(kml, decode(text.as_str()).unwrap());
}

#[test]
fn malformed_xml_names_the_position() {
    match decode("<a><b></a>") {
        Err(KmlError::MalformedXml(msg)) => {
            assert!(msg.contains("at byte"), "no position in {:?}", msg);
        }
        other => panic!("expected a malformed-xml error, got {:?}", other),
    }
}

#[test]
fn attribute_whitespace_is_escaped() {
    let kml = Kml::Element(Element {
        name: "note".to_string(),
        attrs: vec![("q".to_string(), "a\tb\nc".to_string())],
        content: None,
        children: Vec::new(),
    });
    let text = kml.to_string();
    assert_eq!("<note q=\"a&#9;b&#10;c\"></note>", text);
    assert_eq!(kml, decode(text.as_str()).unwrap());
}

#[test]
fn style_map_round_trips() {
    let kml = Kml::StyleMap(StyleMap {
        id: "m".to_string(),
        pairs: vec![
            Pair {
                key: "normal".to_string(),
                style_url: "#n".to_string(),
                attrs: Vec::new(),
            },
            Pair {
                key: "highlight".to_string(),
                style_url: "#h".to_string(),
                attrs: Vec::new(),
            },
        ],
    });
    let text = kml.to_string();
    assert_eq!(
        "<StyleMap id=\"m\"><Pair><key>normal</key><styleUrl>#n</styleUrl></Pair>\
         <Pair><key>highlight</key><styleUrl>#h</styleUrl></Pair></StyleMap>",
        text
    );
    assert_eq!(kml, decode(text.as_str()).unwrap());
}
