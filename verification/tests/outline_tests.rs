//! The outline record: a concave hull over all parcels of a document,
//! its count, and its writer.
use mojxml::error::Error;
use mojxml::geom::PolyBits;
use mojxml::outline::calculate_feature_outline;
use mojxml::parse::{Feature, FeatureProperties, ParsedXML};
use mojxml::writer::{OutlineWriter, WriterOptions};

fn rect_feature(min_x: f64, min_y: f64, max_x: f64, max_y: f64) -> Feature {
    let polygon = PolyBits {
        exterior: vec![
            (min_x.to_bits(), min_y.to_bits()),
            (max_x.to_bits(), min_y.to_bits()),
            (max_x.to_bits(), max_y.to_bits()),
            (min_x.to_bits(), max_y.to_bits()),
            (min_x.to_bits(), min_y.to_bits()),
        ],
        interiors: vec![],
    };
    Feature {
        geometry: vec![polygon],
        props: FeatureProperties {
            map_name: "Test Map".to_string(),
            city_code: 12345,
            city_name: "Test City".to_string(),
            crs_name: "WGS84".to_string(),
            datum_type: Some("Test".to_string()),
            fude_id: "test-id".to_string(),
            accuracy_class: None,
            oaza_code: None,
            chome_code: None,
            koaza_code: None,
            spare_code: None,
            oaza_name: None,
            chome_name: None,
            koaza_name: None,
            spare_name: None,
            chiban: None,
            coord_type: None,
            undetermined: None,
            rep_lat: 0.5f64.to_bits(),
            rep_lon: 0.5f64.to_bits(),
        },
    }
}

#[test]
fn test_calculate_feature_outline() {
    // Two overlapping rectangles: the outline covers both, and the
    // count property says two parcels contributed.
    let feature1 = rect_feature(0.0, 0.0, 1.0, 1.0);
    let feature2 = rect_feature(0.5, 0.5, 1.5, 1.5);
    let parsed_xml =
        ParsedXML { file_name: "test.xml".to_string(), features: vec![feature1, feature2] };
    let outline_feature = calculate_feature_outline(&parsed_xml).unwrap();
    assert_eq!(outline_feature.props.count, 2);
    assert!(!outline_feature.geometry.is_empty());
    assert!(!outline_feature.geometry[0].exterior.is_empty());
    assert_eq!(outline_feature.props.map_name, "Test Map");
    assert_eq!(outline_feature.props.city_code, 12345);
}

#[test]
fn test_outline_of_empty_document_is_an_error() {
    let parsed = ParsedXML { file_name: "e.xml".to_string(), features: vec![] };
    let r = calculate_feature_outline(&parsed);
    assert_eq!(
        r.unwrap_err(),
        Error::MissingElement("No features to calculate outline".to_string())
    );
}

#[test]
fn test_outline_writer_round() {
    let parsed = ParsedXML {
        file_name: "t.xml".to_string(),
        features: vec![rect_feature(0.0, 0.0, 2.0, 2.0)],
    };
    let outline = calculate_feature_outline(&parsed).unwrap();
    let mut w = OutlineWriter::new(&WriterOptions { write_index: true }).expect("writer");
    w.add_outline_feature(&outline).expect("append");
    let bytes = w.flush().expect("finalize").expect("bytes");
    assert_eq!(&bytes[0..3], b"fgb");
}

#[test]
fn test_outline_writer_empty_produces_nothing() {
    let w = OutlineWriter::new(&WriterOptions { write_index: true }).expect("writer");
    assert!(w.flush().expect("finalize").is_none());
}

#[test]
fn test_outline_rejects_extreme_magnitudes() {
    // Finite coordinates of extreme magnitude would drive the hull's
    // comparisons into non-numbers; the outline rejects them as a
    // geometry error scoped to the document.
    let parsed = ParsedXML {
        file_name: "big.xml".to_string(),
        features: vec![rect_feature(0.0, 0.0, 1.0e300, 1.0e300)],
    };
    let r = calculate_feature_outline(&parsed);
    assert_eq!(r.unwrap_err(), Error::Geometry("outline".to_string()));
}
