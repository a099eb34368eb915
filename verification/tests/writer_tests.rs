use kml::model::Alias;
use kml::model::AltitudeMode;
use kml::model::Coord;
use kml::model::Kml;
use kml::model::KmlNum;
use kml::model::LinearRing;
use kml::model::Link;
use kml::model::LinkTypeIcon;
use kml::model::Location;
use kml::model::Orientation;
use kml::model::Point;
use kml::model::Polygon;
use kml::model::RefreshMode;
use kml::model::ResourceMap;
use kml::model::Scale;
use kml::model::SchemaData;
use kml::model::SimpleArrayData;
use kml::model::SimpleData;
use kml::model::ViewRefreshMode;

fn num(s: &str) -> KmlNum {
    KmlNum::from_text(s).unwrap()
}

#[test]
fn test_write_point() {
    let kml = Kml::Point(Point {
        coord: Coord {
            x: num("1"),
            y: num("1"),
            z: Some(num("1")),
        },
        altitude_mode: AltitudeMode::RelativeToGround,
        extrude: false,
    });
    assert_eq!("<Point><extrude>0</extrude><altitudeMode>relativeToGround</altitudeMode><coordinates>1,1,1</coordinates></Point>", kml.to_string());
}

#[test]
fn test_write_location() {
    let kml = Kml::Location(Location {
        longitude: num("17.27"),
        latitude: num("-93.09"),
        altitude: num("350.1"),
    });
    let expected_string = "<Location>\
            <longitude>17.27</longitude>\
            <latitude>-93.09</latitude>\
            <altitude>350.1</altitude>\
        </Location>";
    assert_eq!(expected_string, kml.to_string());
}

#[test]
fn test_write_link() {
    let attrs = vec![("id".to_string(), "Some ID".to_string())];

    let kml = Kml::Link(Link {
        href: Some("/path/to/local/resource".to_string()),
        refresh_mode: Some(RefreshMode::OnChange),
        refresh_interval: num("4"),
        view_refresh_mode: Some(ViewRefreshMode::OnStop),
        view_refresh_time: num("4"),
        view_bound_scale: num("1"),
        view_format: None,
        http_query: None,
        attrs,
    });
    let expected_string = "<Link id=\"Some ID\">\
            <href>/path/to/local/resource</href>\
            <refreshMode>onChange</refreshMode>\
            <refreshInterval>4</refreshInterval>\
            <viewRefreshMode>onStop</viewRefreshMode>\
            <viewRefreshTime>4</viewRefreshTime>\
            <viewBoundScale>1</viewBoundScale>\
        </Link>";
    assert_eq!(expected_string, kml.to_string());
}

#[test]
fn test_write_link_icon() {
    let attrs = vec![("id".to_string(), "Some ID".to_string())];

    let kml = Kml::LinkTypeIcon(LinkTypeIcon {
        href: Some("/path/to/local/resource".to_string()),
        refresh_mode: Some(RefreshMode::OnChange),
        refresh_interval: num("4"),
        view_refresh_mode: Some(ViewRefreshMode::OnStop),
        view_refresh_time: num("4"),
        view_bound_scale: num("1"),
        view_format: None,
        http_query: None,
        attrs,
    });
    let expected_string = "<Icon id=\"Some ID\">\
            <href>/path/to/local/resource</href>\
            <refreshMode>onChange</refreshMode>\
            <refreshInterval>4</refreshInterval>\
            <viewRefreshMode>onStop</viewRefreshMode>\
            <viewRefreshTime>4</viewRefreshTime>\
            <viewBoundScale>1</viewBoundScale>\
        </Icon>";
    assert_eq!(expected_string, kml.to_string());
}

#[test]
fn test_write_resource_map() {
    let alias1 = Alias {
        target_href: Some("../images/foo1.jpg".to_string()),
        source_href: Some("in-geometry-file/foo1.jpg".to_string()),
        attrs: vec![("id".to_string(), "Alias ID 1".to_string())],
    };

    let alias2 = Alias {
        target_href: Some("../images/foo2.jpg".to_string()),
        source_href: Some("in-geometry-file/foo2.jpg".to_string()),
        attrs: vec![("id".to_string(), "Alias ID 2".to_string())],
    };

    let kml = Kml::ResourceMap(ResourceMap {
        aliases: vec![alias1, alias2],
        attrs: vec![("id".to_string(), "ResourceMap ID".to_string())],
    });

    let expected_string = "<ResourceMap id=\"ResourceMap ID\">\
            <Alias id=\"Alias ID 1\">\
                <targetHref>../images/foo1.jpg</targetHref>\
                <sourceHref>in-geometry-file/foo1.jpg</sourceHref>\
            </Alias>\
            <Alias id=\"Alias ID 2\">\
                <targetHref>../images/foo2.jpg</targetHref>\
                <sourceHref>in-geometry-file/foo2.jpg</sourceHref>\
            </Alias>\
        </ResourceMap>";

    assert_eq!(expected_string, kml.to_string());

    // a ResourceMap with no aliases writes an empty element
    assert_eq!(
        "<ResourceMap></ResourceMap>",
        Kml::ResourceMap(ResourceMap {
            aliases: Vec::new(),
            attrs: Vec::new(),
        })
        .to_string()
    );
}

#[test]
fn test_write_alias() {
    let attrs = vec![("id".to_string(), "Some ID".to_string())];

    let kml = Kml::Alias(Alias {
        target_href: Some("../images/foo.jpg".to_string()),
        source_href: Some("in-geometry-file/foo.jpg".to_string()),
        attrs,
    });

    let expected_string = "<Alias id=\"Some ID\">\
            <targetHref>../images/foo.jpg</targetHref>\
            <sourceHref>in-geometry-file/foo.jpg</sourceHref>\
        </Alias>";
    assert_eq!(expected_string, kml.to_string());
}

#[test]
fn test_write_schema_data() {
    let kml = Kml::SchemaData(SchemaData {
        data: vec![
            SimpleData {
                value: "Pi in the sky".to_string(),
                attrs: vec![("name".to_string(), "TrailHeadName".to_string())],
            },
            SimpleData {
                value: "3.14159".to_string(),
                attrs: vec![("name".to_string(), "TrailLength".to_string())],
            },
        ],
        arrays: vec![
            SimpleArrayData {
                values: vec!["86".to_string(), "113".to_string(), "113".to_string()],
                attrs: vec![("name".to_string(), "cadence".to_string())],
            },
            SimpleArrayData {
                values: vec!["181".to_string()],
                attrs: vec![("name".to_string(), "heartrate".to_string())],
            },
        ],
        attrs: vec![("schemaUrl".to_string(), "#TrailHeadTypeId".to_string())],
    });

    let expected_string = "<SchemaData schemaUrl=\"#TrailHeadTypeId\">\
            <SimpleData name=\"TrailHeadName\">Pi in the sky</SimpleData>\
            <SimpleData name=\"TrailLength\">3.14159</SimpleData>\
            <SimpleArrayData name=\"cadence\">\
                <value>86</value>\
                <value>113</value>\
                <value>113</value>\
            </SimpleArrayData>\
            <SimpleArrayData name=\"heartrate\">\
                <value>181</value>\
            </SimpleArrayData>\
        </SchemaData>";

    assert_eq!(expected_string, kml.to_string());
}

#[test]
fn test_write_scale() {
    let kml = Kml::Scale(Scale {
        x: num("3.5"),
        y: num("2"),
        z: num("1"),
    });
    let expected_string = "<Scale>\
            <x>3.5</x>\
            <y>2</y>\
            <z>1</z>\
        </Scale>";
    assert_eq!(expected_string, kml.to_string());
}

#[test]
fn test_write_orientation() {
    let kml = Kml::Orientation(Orientation {
        roll: num("-170.279"),
        tilt: num("13"),
        heading: num("45.07"),
    });
    let expected_string = "<Orientation>\
            <roll>-170.279</roll>\
            <tilt>13</tilt>\
            <heading>45.07</heading>\
        </Orientation>";
    assert_eq!(expected_string, kml.to_string());
}

#[test]
fn test_write_polygon() {
    let kml = Kml::Polygon(Polygon {
        outer: LinearRing {
            coords: vec![
                Coord {
                    x: num("-1"),
                    y: num("2"),
                    z: Some(num("0")),
                },
                Coord {
                    x: num("-1.5"),
                    y: num("3"),
                    z: Some(num("0")),
                },
                Coord {
                    x: num("-1.5"),
                    y: num("2"),
                    z: Some(num("0")),
                },
                Coord {
                    x: num("-1"),
                    y: num("2"),
                    z: Some(num("0")),
                },
            ],
            tessellate: true,
            extrude: false,
            altitude_mode: AltitudeMode::ClampToGround,
        },
        inner: vec![],
        extrude: false,
        tessellate: false,
        altitude_mode: AltitudeMode::ClampToGround,
        attrs: Vec::new(),
    });

    assert_eq!(
        r#"<Polygon><extrude>0</extrude><tessellate>0</tessellate><altitudeMode>clampToGround</altitudeMode><outerBoundaryIs><LinearRing><extrude>0</extrude><tessellate>1</tessellate><altitudeMode>clampToGround</altitudeMode><coordinates>-1,2,0
-1.5,3,0
-1.5,2,0
-1,2,0</coordinates></LinearRing></outerBoundaryIs></Polygon>"#,
        kml.to_string()
    );
}
