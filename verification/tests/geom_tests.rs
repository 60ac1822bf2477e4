//! The representative point: for non-degenerate polygons it lies
//! strictly inside, concave shapes included — where a plain centroid
//! would fall outside.
use geo::Contains;
use mojxml::geom::{point_on_surface, PolyBits};

fn to_geo(p: &PolyBits) -> geo_types::Polygon {
    let ring = |r: &Vec<(u64, u64)>| {
        geo_types::LineString::from(
            r.iter()
                .map(|q| geo_types::Coord { x: f64::from_bits(q.0), y: f64::from_bits(q.1) })
                .collect::<Vec<_>>(),
        )
    };
    geo_types::Polygon::new(ring(&p.exterior), p.interiors.iter().map(ring).collect())
}

fn bits_ring(pts: &[(f64, f64)]) -> Vec<(u64, u64)> {
    pts.iter().map(|(x, y)| (x.to_bits(), y.to_bits())).collect()
}

#[test]
fn test_representative_point_inside_rectangle() {
    let poly = PolyBits {
        exterior: bits_ring(&[(0.0, 0.0), (4.0, 0.0), (4.0, 2.0), (0.0, 2.0), (0.0, 0.0)]),
        interiors: vec![],
    };
    let mp = vec![poly];
    let (xb, yb) = point_on_surface(&mp).expect("rectangle has a representative point");
    let pt = geo_types::Point::new(f64::from_bits(xb), f64::from_bits(yb));
    assert!(to_geo(&mp[0]).contains(&pt), "representative point must lie strictly inside");
}

#[test]
fn test_representative_point_inside_concave_shape() {
    // A C-shaped polygon whose plain centroid falls in the notch,
    // outside the shape itself.
    let poly = PolyBits {
        exterior: bits_ring(&[
            (0.0, 0.0),
            (5.0, 0.0),
            (5.0, 1.0),
            (1.0, 1.0),
            (1.0, 4.0),
            (5.0, 4.0),
            (5.0, 5.0),
            (0.0, 5.0),
            (0.0, 0.0),
        ]),
        interiors: vec![],
    };
    let mp = vec![poly];
    let (xb, yb) = point_on_surface(&mp).expect("concave shape has a representative point");
    let pt = geo_types::Point::new(f64::from_bits(xb), f64::from_bits(yb));
    assert!(to_geo(&mp[0]).contains(&pt), "representative point must lie strictly inside");
}

#[test]
fn test_representative_point_picks_largest_part() {
    // Two parts: the representative point comes from the larger one.
    let small = PolyBits {
        exterior: bits_ring(&[(10.0, 10.0), (11.0, 10.0), (11.0, 11.0), (10.0, 11.0), (10.0, 10.0)]),
        interiors: vec![],
    };
    let big = PolyBits {
        exterior: bits_ring(&[(0.0, 0.0), (5.0, 0.0), (5.0, 5.0), (0.0, 5.0), (0.0, 0.0)]),
        interiors: vec![],
    };
    let mp = vec![small, big];
    let (xb, yb) = point_on_surface(&mp).expect("representative point");
    let x = f64::from_bits(xb);
    let y = f64::from_bits(yb);
    assert!(x < 5.0 && y < 5.0, "({}, {}) should come from the larger part", x, y);
}

#[test]
fn test_representative_point_empty_multipolygon() {
    let mp: Vec<PolyBits> = vec![];
    assert!(point_on_surface(&mp).is_none());
}
