//! The optional per-document summary record: the concave hull of the
//! union of all parcel polygons, carrying the document attributes and
//! a count of contributing parcels.
use vstd::prelude::*;

use crate::error::{Error, ErrorV};
use crate::geom::check_polys_bounded;
use crate::geom::concave_hull_of;
use crate::geom::concave_hull_ring;
use crate::geom::polys_bounded;
use crate::geom::view_polys;
use crate::geom::PolyBits;
use crate::geom::PolyView;
use crate::parse::FeatureV;
use crate::parse::ParsedXML;
use crate::parse::ParsedV;

verus! {

/// The attributes of an outline record.
#[derive(Debug, PartialEq)]
pub struct OutlineFeatureProperties {
    pub map_name: String,
    pub city_code: u32,
    pub city_name: String,
    pub crs_name: String,
    pub datum_type: Option<String>,
    /// How many parcels contributed to the hull.
    pub count: u32,
}

/// The model of an outline record's attributes.
#[verifier::ext_equal]
pub struct OutlinePropsV {
    pub map_name: Seq<char>,
    pub city_code: u32,
    pub city_name: Seq<char>,
    pub crs_name: Seq<char>,
    pub datum_type: Option<Seq<char>>,
    pub count: u32,
}

impl View for OutlineFeatureProperties {
    type V = OutlinePropsV;

    open spec fn view(&self) -> OutlinePropsV {
        OutlinePropsV {
            map_name: self.map_name@,
            city_code: self.city_code,
            city_name: self.city_name@,
            crs_name: self.crs_name@,
            datum_type: self.datum_type.deep_view(),
            count: self.count,
        }
    }
}

/// One outline record: the hull polygon and its attributes.
#[derive(Debug, PartialEq)]
pub struct OutlineFeature {
    pub geometry: Vec<PolyBits>,
    pub props: OutlineFeatureProperties,
}

/// The model of an outline record.
#[verifier::ext_equal]
pub struct OutlineV {
    pub geometry: Seq<PolyView>,
    pub props: OutlinePropsV,
}

impl View for OutlineFeature {
    type V = OutlineV;

    open spec fn view(&self) -> OutlineV {
        OutlineV { geometry: view_polys(self.geometry@), props: self.props@ }
    }
}

/// The polygons of all records, in order.
pub open spec fn all_polys_from(fs: Seq<FeatureV>, i: int) -> Seq<PolyView>
    decreases fs.len() - i,
{
    if i < 0 || i >= fs.len() {
        Seq::empty()
    } else {
        fs[i].geometry + all_polys_from(fs, i + 1)
    }
}

/// The outline of a document's record set: the concave hull of all its
/// polygons, with the first record's document attributes and a count of
/// contributing parcels.  A document with no records has no outline,
/// and a coordinate of extreme magnitude — whose differences the hull
/// cannot order — is a geometry error.
pub open spec fn spec_calculate_outline(parsed: ParsedV) -> Result<OutlineV, ErrorV> {
    if parsed.features.len() == 0 {
        Err(ErrorV::MissingElement("No features to calculate outline"@))
    } else if !polys_bounded(all_polys_from(parsed.features, 0)) {
        Err(ErrorV::Geometry("outline"@))
    } else {
        let first = parsed.features[0];
        let hull = concave_hull_of(all_polys_from(parsed.features, 0));
        Ok(
            OutlineV {
                geometry: seq![PolyView { exterior: hull, interiors: Seq::empty() }],
                props: OutlinePropsV {
                    map_name: first.props.map_name,
                    city_code: first.props.city_code,
                    city_name: first.props.city_name,
                    crs_name: first.props.crs_name,
                    datum_type: first.props.datum_type,
                    count: parsed.features.len() as u32,
                },
            },
        )
    }
}

/// Compute the outline record of one document's record set.
#[verifier::loop_isolation(false)]
pub fn calculate_feature_outline(parsed: &ParsedXML) -> (r: Result<OutlineFeature, Error>)
    ensures
        r matches Ok(o) ==> spec_calculate_outline(parsed@) == Ok::<OutlineV, ErrorV>(o@),
        r matches Err(e) ==> spec_calculate_outline(parsed@) == Err::<OutlineV, ErrorV>(e@),
{
    if parsed.features.len() == 0 {
        return Err(Error::MissingElement("No features to calculate outline".to_owned()));
    }
    let ghost fv = crate::parse::view_feats(parsed.features@);
    let mut polys: Vec<PolyBits> = Vec::new();
    let mut i: usize = 0;
    while i < parsed.features.len()
        invariant
            0 <= i <= parsed.features@.len(),
            fv.len() == parsed.features@.len(),
            view_polys(polys@) + all_polys_from(fv, i as int) =~= all_polys_from(fv, 0),
        decreases parsed.features@.len() - i,
    {
        let f = &parsed.features[i];
        let ghost base = polys@;
        let mut k: usize = 0;
        while k < f.geometry.len()
            invariant
                0 <= k <= f.geometry@.len(),
                view_polys(polys@) =~= view_polys(base) + view_polys(f.geometry@).take(k as int),
            decreases f.geometry@.len() - k,
        {
            let ghost prev = polys@;
            let p = f.geometry[k].copy_of();
            polys.push(p);
            proof {
                assert(view_polys(polys@) =~= view_polys(prev).push(f.geometry@[k as int]@));
                assert(view_polys(f.geometry@).take(k + 1) =~= view_polys(f.geometry@).take(
                    k as int,
                ).push(view_polys(f.geometry@)[k as int]));
            }
            k = k + 1;
        }
        proof {
            assert(view_polys(f.geometry@).take(f.geometry@.len() as int) =~= view_polys(
                f.geometry@,
            ));
            assert(view_polys(f.geometry@) =~= fv[i as int].geometry);
            assert(view_polys(base) + fv[i as int].geometry + all_polys_from(fv, i + 1)
                =~= view_polys(base) + (fv[i as int].geometry + all_polys_from(fv, i + 1)));
        }
        i = i + 1;
    }
    if !check_polys_bounded(&polys) {
        proof {
            assert(view_polys(polys@) == all_polys_from(fv, 0));
        }
        return Err(Error::Geometry("outline".to_owned()));
    }
    let hull = concave_hull_ring(&polys);
    let first = &parsed.features[0];
    let count: u32 = #[verifier::truncate] (parsed.features.len() as u32);
    let hull_poly = PolyBits { exterior: hull, interiors: Vec::new() };
    let mut geometry: Vec<PolyBits> = Vec::new();
    geometry.push(hull_poly);
    let out = OutlineFeature {
        geometry,
        props: OutlineFeatureProperties {
            map_name: first.props.map_name.clone(),
            city_code: first.props.city_code,
            city_name: first.props.city_name.clone(),
            crs_name: first.props.crs_name.clone(),
            datum_type: match &first.props.datum_type {
                Some(t) => Some(t.clone()),
                None => None,
            },
            count,
        },
    };
    proof {
        assert(view_polys(polys@) =~= all_polys_from(fv, 0));
        assert(fv[0] == parsed.features@[0]@);
        assert(out@.geometry =~~= seq![
            PolyView {
                exterior: concave_hull_of(all_polys_from(fv, 0)),
                interiors: Seq::empty(),
            },
        ]);
    }
    Ok(out)
}

} // verus!
