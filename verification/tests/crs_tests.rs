//! The coordinate-system table and the reprojection step: known and
//! unknown names, the arbitrary sentinel, and the round trip through
//! each projected system and its inverse.
use mojxml::crs::get_proj;
use mojxml::error::Error;
use mojxml::parse::{parse_xml_content, FileData, ParseOptions};

#[test]
fn test_get_proj_arbitrary_is_none() {
    assert_eq!(get_proj("任意座標系").unwrap(), None);
}

#[test]
fn test_get_proj_known_systems() {
    let p = get_proj("公共座標1系").unwrap().unwrap();
    assert!(p.contains("+proj=tmerc"));
    assert!(p.contains("+lon_0=129.5"));
    let w = get_proj("WGS84").unwrap().unwrap();
    assert!(w.contains("+proj=longlat"));
}

#[test]
fn test_get_proj_unknown_is_an_error() {
    match get_proj("平面直角座標系") {
        Err(Error::UnsupportedCrs(s)) => assert_eq!(s, "平面直角座標系"),
        other => panic!("expected an unsupported-system error, got {:?}", other),
    }
}

#[test]
fn test_roundtrip_every_projected_system() {
    // For every recognized projected system, a fixed point carried
    // through the projection and back through its inverse reproduces
    // the original coordinate within a small tolerance.
    let wgs = proj4rs::proj::Proj::from_proj_string(get_proj("WGS84").unwrap().unwrap()).unwrap();
    for zone in 1..=19u32 {
        let name = format!("公共座標{}系", zone);
        let params = get_proj(&name).unwrap().unwrap();
        let proj = proj4rs::proj::Proj::from_proj_string(params).unwrap();
        let original = (10000.0f64, 5000.0f64);
        let mut p = original;
        proj4rs::transform::transform(&proj, &wgs, &mut p).expect("forward transform");
        proj4rs::transform::transform(&wgs, &proj, &mut p).expect("inverse transform");
        assert!(
            (p.0 - original.0).abs() < 1e-3 && (p.1 - original.1).abs() < 1e-3,
            "round trip drifted for {}: {:?} vs {:?}",
            name,
            p,
            original
        );
    }
}

#[test]
fn test_projected_document_lands_near_its_meridian() {
    // A document in zone 1 (central meridian 129.5°E, origin 33°N)
    // with a parcel near the plane origin reprojects into degrees
    // close to that origin.
    let mut s = String::from(
        "<地図 xmlns=\"http://www.moj.go.jp/MINJI/tizuxml\" \
         xmlns:zmn=\"http://www.moj.go.jp/MINJI/tizuzumen\">\
         <地図名>M</地図名><市区町村コード>1</市区町村コード>\
         <市区町村名>C</市区町村名><座標系>公共座標1系</座標系><空間属性>",
    );
    for (id, x, y) in [("P1", "0.0", "0.0"), ("P2", "100.0", "0.0"), ("P3", "0.0", "100.0")] {
        s.push_str(&format!(
            "<zmn:GM_Point id=\"{}\"><zmn:GM_Point.position><zmn:DirectPosition>\
             <X>{}</X><Y>{}</Y></zmn:DirectPosition></zmn:GM_Point.position></zmn:GM_Point>",
            id, x, y
        ));
    }
    for (c, p) in [("C1", "P1"), ("C2", "P2"), ("C3", "P3")] {
        s.push_str(&format!(
            "<zmn:GM_Curve id=\"{}\"><zmn:GM_Curve.segment><zmn:GM_LineString>\
             <zmn:GM_PointArray.column><zmn:GM_Position.indirect>\
             <zmn:GM_PointRef idref=\"{}\"/></zmn:GM_Position.indirect>\
             </zmn:GM_PointArray.column></zmn:GM_LineString>\
             </zmn:GM_Curve.segment></zmn:GM_Curve>",
            c, p
        ));
    }
    s.push_str(
        "<zmn:GM_Surface id=\"S1\"><zmn:GM_Surface.patch><zmn:GM_Polygon>\
         <zmn:GM_Polygon.boundary><zmn:GM_SurfaceBoundary>\
         <zmn:GM_SurfaceBoundary.exterior><zmn:GM_Ring>\
         <zmn:GM_CompositeCurve.generator idref=\"C1\"/>\
         <zmn:GM_CompositeCurve.generator idref=\"C2\"/>\
         <zmn:GM_CompositeCurve.generator idref=\"C3\"/>\
         <zmn:GM_CompositeCurve.generator idref=\"C1\"/>\
         </zmn:GM_Ring></zmn:GM_SurfaceBoundary.exterior>\
         </zmn:GM_SurfaceBoundary></zmn:GM_Polygon.boundary>\
         </zmn:GM_Polygon></zmn:GM_Surface.patch></zmn:GM_Surface>\
         </空間属性><主題属性>\
         <筆 id=\"F1\"><形状 idref=\"S1\"/><地番>1</地番></筆>\
         </主題属性></地図>",
    );
    let parsed = parse_xml_content(
        &FileData { file_name: "z1.xml".to_string(), contents: s },
        &ParseOptions { include_arbitrary_crs: false, include_chikugai: true },
    )
    .expect("zone-1 document should resolve");
    assert_eq!(parsed.features.len(), 1);
    let (xb, yb) = parsed.features[0].geometry[0].exterior[0];
    let lon = f64::from_bits(xb);
    let lat = f64::from_bits(yb);
    assert!((lon - 129.5).abs() < 0.1, "longitude {} not near 129.5", lon);
    assert!((lat - 33.0).abs() < 0.1, "latitude {} not near 33", lat);
}
