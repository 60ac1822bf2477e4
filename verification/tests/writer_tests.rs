//! The columnar writer: container bytes are produced exactly when
//! records were appended, and the finished bytes read back as a
//! well-formed container with the appended record count.
use flatgeobuf::FallibleStreamingIterator;
use mojxml::geom::PolyBits;
use mojxml::parse::{CommonProperties, Feature, FeatureProperties, ParsedXML};
use mojxml::writer::{FGBWriter, WriterOptions};

fn rect_poly(min_x: f64, min_y: f64, max_x: f64, max_y: f64) -> PolyBits {
    PolyBits {
        exterior: vec![
            (min_x.to_bits(), min_y.to_bits()),
            (max_x.to_bits(), min_y.to_bits()),
            (max_x.to_bits(), max_y.to_bits()),
            (min_x.to_bits(), max_y.to_bits()),
            (min_x.to_bits(), min_y.to_bits()),
        ],
        interiors: vec![],
    }
}

fn common() -> CommonProperties {
    CommonProperties {
        map_name: "テスト地図".to_string(),
        city_code: 0,
        city_name: "テスト市".to_string(),
        crs_name: "公共座標1系".to_string(),
        datum_type: Some("変換".to_string()),
    }
}

fn one_feature() -> Feature {
    let c = common();
    Feature {
        geometry: vec![rect_poly(0.0, 0.0, 1.0, 1.0)],
        props: FeatureProperties {
            map_name: c.map_name.clone(),
            city_code: c.city_code,
            city_name: c.city_name.clone(),
            crs_name: c.crs_name.clone(),
            datum_type: c.datum_type.clone(),
            fude_id: "H000000001".to_string(),
            accuracy_class: None,
            oaza_code: None,
            chome_code: None,
            koaza_code: None,
            spare_code: None,
            oaza_name: None,
            chome_name: None,
            koaza_name: None,
            spare_name: None,
            chiban: Some("1".to_string()),
            coord_type: None,
            undetermined: None,
            rep_lat: 0.5f64.to_bits(),
            rep_lon: 0.5f64.to_bits(),
        },
    }
}

#[test]
fn test_write_flatgeobuf() {
    let parsed = ParsedXML { file_name: "test.xml".to_string(), features: vec![one_feature()] };
    let mut fgb = FGBWriter::new(&WriterOptions { write_index: true }).expect("writer");
    fgb.add_xml_features(&parsed).expect("append");
    let bytes = fgb.flush().expect("finalize").expect("one record must produce bytes");
    assert!(bytes.len() > 8);
    assert_eq!(&bytes[0..3], b"fgb");
    // Read the container back and count its records.
    let cursor = std::io::Cursor::new(bytes);
    let reader = flatgeobuf::FgbReader::open(cursor).expect("container must read back");
    let mut sel = reader.select_all().expect("select");
    let mut n = 0;
    while let Some(_f) = sel.next().expect("feature") {
        n += 1;
    }
    assert_eq!(n, 1);
}

#[test]
fn test_no_features_no_file() {
    // Finalizing after zero appends must not error, and it must
    // report that no container was produced at all.
    let parsed = ParsedXML { file_name: "test_empty.xml".to_string(), features: vec![] };
    let mut fgb = FGBWriter::new(&WriterOptions { write_index: true }).expect("writer");
    fgb.add_xml_features(&parsed).expect("appending nothing succeeds");
    let out = fgb.flush().expect("finalizing nothing succeeds");
    assert!(out.is_none(), "File should not exist when there are no features");
}

#[test]
fn test_writer_without_index() {
    let parsed = ParsedXML { file_name: "t.xml".to_string(), features: vec![one_feature()] };
    let mut fgb = FGBWriter::new(&WriterOptions { write_index: false }).expect("writer");
    fgb.add_xml_features(&parsed).expect("append");
    let bytes = fgb.flush().expect("finalize").expect("bytes");
    assert_eq!(&bytes[0..3], b"fgb");
}
