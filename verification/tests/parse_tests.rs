//! End-to-end resolution of documents built as XML text, covering the
//! reference-graph resolution, the exclusion filter, the arbitrary
//! coordinate-system paths, batch fault isolation and idempotence.
use mojxml::error::Error;
use mojxml::parse::{parse_xml_content, FileData, ParseOptions};
use mojxml::pipeline::{error_count, process_documents};

fn doc_header(crs: &str) -> String {
    let mut s = String::new();
    s.push_str("<地図 xmlns=\"http://www.moj.go.jp/MINJI/tizuxml\" ");
    s.push_str("xmlns:zmn=\"http://www.moj.go.jp/MINJI/tizuzumen\">");
    s.push_str("<地図名>TestMap</地図名>");
    s.push_str("<市区町村コード>12345</市区町村コード>");
    s.push_str("<市区町村名>TestCity</市区町村名>");
    s.push_str(&format!("<座標系>{}</座標系>", crs));
    s
}

fn gm_point(id: &str, x: &str, y: &str) -> String {
    format!(
        "<zmn:GM_Point id=\"{}\"><zmn:GM_Point.position><zmn:DirectPosition>\
         <X>{}</X><Y>{}</Y></zmn:DirectPosition></zmn:GM_Point.position></zmn:GM_Point>",
        id, x, y
    )
}

fn gm_curve_indirect(id: &str, point_ref: &str) -> String {
    format!(
        "<zmn:GM_Curve id=\"{}\"><zmn:GM_Curve.segment><zmn:GM_LineString>\
         <zmn:GM_PointArray.column><zmn:GM_Position.indirect>\
         <zmn:GM_PointRef idref=\"{}\"/>\
         </zmn:GM_Position.indirect></zmn:GM_PointArray.column>\
         </zmn:GM_LineString></zmn:GM_Curve.segment></zmn:GM_Curve>",
        id, point_ref
    )
}

fn gm_surface(id: &str, curve_refs: &[&str]) -> String {
    let mut refs = String::new();
    for c in curve_refs {
        refs.push_str(&format!("<zmn:GM_CompositeCurve.generator idref=\"{}\"/>", c));
    }
    format!(
        "<zmn:GM_Surface id=\"{}\"><zmn:GM_Surface.patch><zmn:GM_Polygon>\
         <zmn:GM_Polygon.boundary><zmn:GM_SurfaceBoundary>\
         <zmn:GM_SurfaceBoundary.exterior><zmn:GM_Ring>{}</zmn:GM_Ring>\
         </zmn:GM_SurfaceBoundary.exterior>\
         </zmn:GM_SurfaceBoundary></zmn:GM_Polygon.boundary>\
         </zmn:GM_Polygon></zmn:GM_Surface.patch></zmn:GM_Surface>",
        id, refs
    )
}

/// A complete document with a triangle parcel in the given system.
fn triangle_doc(crs: &str) -> String {
    let mut s = doc_header(crs);
    s.push_str("<空間属性>");
    s.push_str(&gm_point("P1", "35.0", "139.0"));
    s.push_str(&gm_point("P2", "35.001", "139.0"));
    s.push_str(&gm_point("P3", "35.0", "139.001"));
    s.push_str(&gm_curve_indirect("C1", "P1"));
    s.push_str(&gm_curve_indirect("C2", "P2"));
    s.push_str(&gm_curve_indirect("C3", "P3"));
    s.push_str(&gm_surface("S1", &["C1", "C2", "C3"]));
    s.push_str("</空間属性>");
    s.push_str("<主題属性>");
    s.push_str("<筆 id=\"F1\"><形状 idref=\"S1\"/><地番>1</地番></筆>");
    s.push_str("</主題属性>");
    s.push_str("</地図>");
    s
}

fn opts(arbitrary: bool, chikugai: bool) -> ParseOptions {
    ParseOptions { include_arbitrary_crs: arbitrary, include_chikugai: chikugai }
}

fn file(name: &str, contents: String) -> FileData {
    FileData { file_name: name.to_string(), contents }
}

#[test]
fn test_end_to_end_arbitrary_document() {
    // One point per curve, a surface over three distinct curves, one
    // parcel in the arbitrary system: exactly one record whose
    // geometry holds the declared coordinates with axes swapped.
    let parsed = parse_xml_content(&file("t.xml", triangle_doc("任意座標系")), &opts(true, true))
        .expect("document should resolve");
    assert_eq!(parsed.file_name, "t.xml");
    assert_eq!(parsed.features.len(), 1);
    let f = &parsed.features[0];
    assert_eq!(f.props.fude_id, "F1");
    assert_eq!(f.props.chiban, Some("1".to_string()));
    assert_eq!(f.props.map_name, "TestMap");
    assert_eq!(f.props.city_code, 12345);
    assert_eq!(f.props.city_name, "TestCity");
    assert_eq!(f.props.crs_name, "任意座標系");
    assert_eq!(f.geometry.len(), 1);
    let ring = &f.geometry[0].exterior;
    // Declared (northing, easting) pairs come out as (x=easting,
    // y=northing); the three-reference ring is closed by repeating the
    // first coordinate.
    let expect = vec![
        (139.0f64.to_bits(), 35.0f64.to_bits()),
        (139.0f64.to_bits(), 35.001f64.to_bits()),
        (139.001f64.to_bits(), 35.0f64.to_bits()),
        (139.0f64.to_bits(), 35.0f64.to_bits()),
    ];
    assert_eq!(ring, &expect);
    assert_eq!(f.geometry[0].interiors.len(), 0);
}

#[test]
fn test_arbitrary_crs_excluded_yields_no_records() {
    let parsed = parse_xml_content(&file("t.xml", triangle_doc("任意座標系")), &opts(false, true))
        .expect("an excluded document still parses");
    assert_eq!(parsed.features.len(), 0);
}

#[test]
fn test_arbitrary_crs_coordinates_pass_through_exactly() {
    // With the arbitrary sentinel no transform is applied: the output
    // bit patterns equal the parsed input bit patterns exactly.
    let parsed = parse_xml_content(&file("t.xml", triangle_doc("任意座標系")), &opts(true, true))
        .expect("document should resolve");
    let ring = &parsed.features[0].geometry[0].exterior;
    assert_eq!(ring[0].0, "139.0".parse::<f64>().unwrap().to_bits());
    assert_eq!(ring[0].1, "35.0".parse::<f64>().unwrap().to_bits());
}

#[test]
fn test_unsupported_crs_is_an_error() {
    let r = parse_xml_content(&file("t.xml", triangle_doc("謎の座標系")), &opts(true, true));
    assert_eq!(r.unwrap_err(), Error::UnsupportedCrs("謎の座標系".to_string()));
}

#[test]
fn test_malformed_xml_is_an_error() {
    let r = parse_xml_content(&file("t.xml", "<地図><broken".to_string()), &opts(true, true));
    assert_eq!(r.unwrap_err(), Error::Xml);
}

#[test]
fn test_missing_map_name_is_an_error() {
    let mut s = String::from(
        "<地図 xmlns=\"http://www.moj.go.jp/MINJI/tizuxml\" \
         xmlns:zmn=\"http://www.moj.go.jp/MINJI/tizuzumen\">",
    );
    s.push_str("<市区町村コード>1</市区町村コード></地図>");
    let r = parse_xml_content(&file("t.xml", s), &opts(true, true));
    assert_eq!(r.unwrap_err(), Error::MissingElement("地図名".to_string()));
}

#[test]
fn test_bad_city_code_is_an_error() {
    let mut s = doc_header("任意座標系");
    s = s.replace("<市区町村コード>12345</市区町村コード>", "<市区町村コード>12x45</市区町村コード>");
    s.push_str("</地図>");
    let r = parse_xml_content(&file("t.xml", s), &opts(true, true));
    assert_eq!(r.unwrap_err(), Error::ParseInt("12x45".to_string()));
}

#[test]
fn test_missing_point_id_is_an_error() {
    let mut s = doc_header("任意座標系");
    s.push_str("<空間属性>");
    s.push_str(&gm_point("P1", "1.0", "2.0").replace(" id=\"P1\"", ""));
    s.push_str("</空間属性><主題属性></主題属性></地図>");
    let r = parse_xml_content(&file("t.xml", s), &opts(true, true));
    assert_eq!(
        r.unwrap_err(),
        Error::MissingAttribute { element: "GM_Point".to_string(), attribute: "id".to_string() }
    );
}

#[test]
fn test_bad_coordinate_text_is_an_error() {
    let mut s = doc_header("任意座標系");
    s.push_str("<空間属性>");
    s.push_str(&gm_point("P1", "abc", "2.0"));
    s.push_str("</空間属性><主題属性></主題属性></地図>");
    let r = parse_xml_content(&file("t.xml", s), &opts(true, true));
    assert_eq!(r.unwrap_err(), Error::ParseFloat("abc".to_string()));
}

#[test]
fn test_unexpected_position_element_is_an_error() {
    let mut s = doc_header("任意座標系");
    s.push_str("<空間属性>");
    s.push_str(&gm_point("P1", "1.0", "2.0"));
    s.push_str(&gm_curve_indirect("C1", "P1").replace("GM_Position.indirect", "GM_Position.mystery"));
    s.push_str("</空間属性><主題属性></主題属性></地図>");
    let r = parse_xml_content(&file("t.xml", s), &opts(true, true));
    assert_eq!(r.unwrap_err(), Error::UnexpectedElement("GM_Position.mystery".to_string()));
}

#[test]
fn test_degenerate_surface_is_a_geometry_error() {
    // A surface whose exterior ring has no curve references cannot be
    // triangulated, so its document fails with a geometry error.
    let mut s = doc_header("任意座標系");
    s.push_str("<空間属性>");
    s.push_str(&gm_surface("S1", &[]));
    s.push_str("</空間属性><主題属性>");
    s.push_str("<筆 id=\"F1\"><形状 idref=\"S1\"/><地番>1</地番></筆>");
    s.push_str("</主題属性></地図>");
    let r = parse_xml_content(&file("t.xml", s), &opts(true, true));
    assert_eq!(r.unwrap_err(), Error::Geometry("point on surface".to_string()));
}

#[test]
fn test_chikugai_filter_drops_marked_parcels() {
    let s = triangle_doc("任意座標系").replace("<地番>1</地番>", "<地番>1地区外</地番>");
    let without = parse_xml_content(&file("t.xml", s.clone()), &opts(true, false)).unwrap();
    assert_eq!(without.features.len(), 0);
    let with = parse_xml_content(&file("t.xml", s), &opts(true, true)).unwrap();
    assert_eq!(with.features.len(), 1);
}

#[test]
fn test_chikugai_filter_requires_lot_number() {
    let s = triangle_doc("任意座標系").replace("<地番>1</地番>", "");
    let r = parse_xml_content(&file("t.xml", s), &opts(true, false));
    assert_eq!(r.unwrap_err(), Error::MissingElement("地番".to_string()));
}

#[test]
fn test_malformed_reference_skips_only_that_document() {
    // One document references a point that was never declared; its
    // sibling in the same batch still produces its record.
    let bad = triangle_doc("任意座標系").replace("idref=\"P1\"", "idref=\"P9\"");
    let good = triangle_doc("任意座標系");
    let docs = vec![file("bad.xml", bad), file("good.xml", good)];
    let results = process_documents(&docs, &opts(true, true));
    assert_eq!(results.len(), 2);
    assert_eq!(results[0].as_ref().unwrap_err(), &Error::PointNotFound("P9".to_string()));
    let ok = results[1].as_ref().unwrap();
    assert_eq!(ok.features.len(), 1);
    assert_eq!(error_count(&results), 1);
}

#[test]
fn test_batch_is_idempotent() {
    // Two runs over the same inputs with the same options give the
    // same per-document record sets.
    let docs = vec![
        file("a.xml", triangle_doc("任意座標系")),
        file("b.xml", triangle_doc("謎の座標系")),
    ];
    let o = opts(true, true);
    let r1 = process_documents(&docs, &o);
    let r2 = process_documents(&docs, &o);
    assert_eq!(r1, r2);
}

#[test]
fn test_optional_code_attribute_leniency() {
    // A numeric-coded optional attribute that fails to parse is
    // treated as absent, not as an error.
    let s = triangle_doc("任意座標系").replace(
        "<地番>1</地番>",
        "<地番>1</地番><大字コード>not-a-number</大字コード><丁目コード>42</丁目コード>",
    );
    let parsed = parse_xml_content(&file("t.xml", s), &opts(true, true)).unwrap();
    let f = &parsed.features[0];
    assert_eq!(f.props.oaza_code, None);
    assert_eq!(f.props.chome_code, Some(42));
}

#[test]
fn test_interior_ring_count_matches_declarations() {
    // A surface with two interior boundaries yields a polygon with
    // exactly two interior rings, in declaration order.
    let mut s = doc_header("任意座標系");
    s.push_str("<空間属性>");
    s.push_str(&gm_point("P1", "0.0", "0.0"));
    s.push_str(&gm_point("P2", "0.0", "10.0"));
    s.push_str(&gm_point("P3", "10.0", "10.0"));
    s.push_str(&gm_point("P4", "10.0", "0.0"));
    s.push_str(&gm_point("P5", "1.0", "1.0"));
    s.push_str(&gm_point("P6", "1.0", "2.0"));
    s.push_str(&gm_point("P7", "2.0", "2.0"));
    s.push_str(&gm_point("P8", "5.0", "5.0"));
    s.push_str(&gm_point("P9", "5.0", "6.0"));
    s.push_str(&gm_point("PA", "6.0", "6.0"));
    for (c, p) in [
        ("C1", "P1"), ("C2", "P2"), ("C3", "P3"), ("C4", "P4"),
        ("H1", "P5"), ("H2", "P6"), ("H3", "P7"),
        ("K1", "P8"), ("K2", "P9"), ("K3", "PA"),
    ] {
        s.push_str(&gm_curve_indirect(c, p));
    }
    s.push_str(
        "<zmn:GM_Surface id=\"S1\"><zmn:GM_Surface.patch><zmn:GM_Polygon>\
         <zmn:GM_Polygon.boundary><zmn:GM_SurfaceBoundary>\
         <zmn:GM_SurfaceBoundary.exterior><zmn:GM_Ring>\
         <zmn:GM_CompositeCurve.generator idref=\"C1\"/>\
         <zmn:GM_CompositeCurve.generator idref=\"C2\"/>\
         <zmn:GM_CompositeCurve.generator idref=\"C3\"/>\
         <zmn:GM_CompositeCurve.generator idref=\"C4\"/>\
         <zmn:GM_CompositeCurve.generator idref=\"C1\"/>\
         </zmn:GM_Ring></zmn:GM_SurfaceBoundary.exterior>\
         <zmn:GM_SurfaceBoundary.interior><zmn:GM_Ring>\
         <zmn:GM_CompositeCurve.generator idref=\"H1\"/>\
         <zmn:GM_CompositeCurve.generator idref=\"H2\"/>\
         <zmn:GM_CompositeCurve.generator idref=\"H3\"/>\
         <zmn:GM_CompositeCurve.generator idref=\"H1\"/>\
         </zmn:GM_Ring></zmn:GM_SurfaceBoundary.interior>\
         <zmn:GM_SurfaceBoundary.interior><zmn:GM_Ring>\
         <zmn:GM_CompositeCurve.generator idref=\"K1\"/>\
         <zmn:GM_CompositeCurve.generator idref=\"K2\"/>\
         <zmn:GM_CompositeCurve.generator idref=\"K3\"/>\
         <zmn:GM_CompositeCurve.generator idref=\"K1\"/>\
         </zmn:GM_Ring></zmn:GM_SurfaceBoundary.interior>\
         </zmn:GM_SurfaceBoundary></zmn:GM_Polygon.boundary>\
         </zmn:GM_Polygon></zmn:GM_Surface.patch></zmn:GM_Surface>",
    );
    s.push_str("</空間属性><主題属性>");
    s.push_str("<筆 id=\"F1\"><形状 idref=\"S1\"/><地番>1</地番></筆>");
    s.push_str("</主題属性></地図>");
    let parsed = parse_xml_content(&file("t.xml", s), &opts(true, true)).unwrap();
    let poly = &parsed.features[0].geometry[0];
    assert_eq!(poly.exterior.len(), 5);
    assert_eq!(poly.interiors.len(), 2);
    assert_eq!(poly.interiors[0].len(), 4);
    assert_eq!(poly.interiors[1].len(), 4);
    // First interior ring is the one declared first.
    assert_eq!(poly.interiors[0][0], (1.0f64.to_bits(), 1.0f64.to_bits()));
}

#[test]
fn test_duplicate_identifier_last_declaration_wins() {
    let mut s = doc_header("任意座標系");
    s.push_str("<空間属性>");
    s.push_str(&gm_point("P1", "1.0", "1.0"));
    s.push_str(&gm_point("P1", "2.0", "3.0"));
    s.push_str(&gm_point("P2", "2.5", "3.0"));
    s.push_str(&gm_point("P3", "2.0", "3.5"));
    s.push_str(&gm_curve_indirect("C1", "P1"));
    s.push_str(&gm_curve_indirect("C2", "P2"));
    s.push_str(&gm_curve_indirect("C3", "P3"));
    s.push_str(&gm_surface("S1", &["C1", "C2", "C3", "C1"]));
    s.push_str("</空間属性><主題属性>");
    s.push_str("<筆 id=\"F1\"><形状 idref=\"S1\"/><地番>1</地番></筆>");
    s.push_str("</主題属性></地図>");
    let parsed = parse_xml_content(&file("t.xml", s), &opts(true, true)).unwrap();
    let ring = &parsed.features[0].geometry[0].exterior;
    assert_eq!(ring[0], (3.0f64.to_bits(), 2.0f64.to_bits()));
}

#[test]
fn test_failed_transform_is_a_projection_error() {
    // A coordinate absurdly far outside the projected plane makes the
    // transform fail; the document aborts with a projection error.
    let s = triangle_doc("公共座標1系")
        .replace("<X>35.0</X>", "<X>1e300</X>")
        .replace("<Y>139.0</Y>", "<Y>1e300</Y>");
    let r = parse_xml_content(&file("t.xml", s), &opts(false, true));
    assert_eq!(r.unwrap_err(), Error::Projection);
}

#[test]
fn test_error_descriptions() {
    assert_eq!(
        Error::MissingElement("pos".to_string()).describe(),
        "Missing required element: pos"
    );
    assert_eq!(
        Error::MissingAttribute { element: "GM_Point".to_string(), attribute: "id".to_string() }
            .describe(),
        "Missing attribute 'id' on element 'GM_Point'"
    );
    assert_eq!(Error::PointNotFound("P9".to_string()).describe(), "Failed to find point referenced by ID: P9");
    assert_eq!(Error::Xml.describe(), "XML parsing error");
    assert_eq!(Error::UnsupportedCrs("X".to_string()).describe(), "Unsupported CRS: X");
}

#[test]
fn test_xml_namespace_table() {
    assert_eq!(mojxml::xml::get_xml_namespace(None), Some("http://www.moj.go.jp/MINJI/tizuxml"));
    assert_eq!(
        mojxml::xml::get_xml_namespace(Some("zmn")),
        Some("http://www.moj.go.jp/MINJI/tizuzumen")
    );
    assert_eq!(
        mojxml::xml::get_xml_namespace(Some("xsi")),
        Some("http://www.w3.org/2001/XMLSchema-instance")
    );
    assert_eq!(mojxml::xml::get_xml_namespace(Some("foo")), None);
}

#[test]
fn test_unresolved_surface_reference_names_the_id() {
    // A shape reference to a surface that was never declared is a
    // not-found error carrying the missing identifier.
    let s = triangle_doc("任意座標系").replace("<形状 idref=\"S1\"/>", "<形状 idref=\"S9\"/>");
    let r = parse_xml_content(&file("t.xml", s), &opts(true, true));
    assert_eq!(r.unwrap_err(), Error::PointNotFound("S9".to_string()));
}

#[test]
fn test_parcel_without_shape_element_is_an_error() {
    let s = triangle_doc("任意座標系").replace("<形状 idref=\"S1\"/>", "");
    let r = parse_xml_content(&file("t.xml", s), &opts(true, true));
    assert_eq!(r.unwrap_err(), Error::MissingElement("geometry".to_string()));
}

#[test]
fn test_non_finite_coordinate_is_an_error() {
    // "NaN" and "inf" parse as floating-point text, but the geometry
    // algorithms cannot order them: they are rejected as coordinate
    // errors, scoped to the document.
    let s = triangle_doc("任意座標系").replace("<X>35.0</X>", "<X>NaN</X>");
    let r = parse_xml_content(&file("t.xml", s), &opts(true, true));
    assert_eq!(r.unwrap_err(), Error::ParseFloat("NaN".to_string()));
    let s = triangle_doc("任意座標系").replace("<Y>139.0</Y>", "<Y>inf</Y>");
    let r = parse_xml_content(&file("t.xml", s), &opts(true, true));
    assert_eq!(r.unwrap_err(), Error::ParseFloat("inf".to_string()));
}

#[test]
fn test_huge_finite_coordinates_still_resolve() {
    // A finite coordinate of large magnitude is a legal value for the
    // resolver and the representative point; only the outline step
    // bounds magnitudes.
    let s = triangle_doc("任意座標系").replace("<X>35.0</X>", "<X>1e300</X>");
    let parsed = parse_xml_content(&file("t.xml", s), &opts(true, true))
        .expect("large finite coordinates resolve");
    assert_eq!(parsed.features.len(), 1);
    let ring = &parsed.features[0].geometry[0].exterior;
    assert_eq!(ring[0].1, 1.0e300f64.to_bits());
}
