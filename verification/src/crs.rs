//! The closed table of recognized coordinate-system display names and
//! the projection parameters each maps to, with the reprojection step
//! that carries every curve coordinate into the global target system.
use vstd::prelude::*;

use crate::error::{Error, ErrorV};
use crate::numbits::{degrees_bits, degrees_of};
use crate::text::str_eq;

verus! {

/// A planar coordinate as two 64-bit float bit patterns (x, y).
pub type PtBits = (u64, u64);

/// The display name of the "arbitrary/unmapped" coordinate system.
pub open spec fn arbitrary_crs_name() -> Seq<char> {
    "任意座標系"@
}

/// The projection parameter string a coordinate-system display name
/// maps to, or `None` for an unrecognized name.
pub open spec fn crs_param(name: Seq<char>) -> Option<Seq<char>> {
    if false {
        None
    } else if name == "WGS84"@ {
        Some("+proj=longlat +ellps=WGS84 +datum=WGS84 +no_defs"@)
    } else if name == "公共座標1系"@ {
        Some("+proj=tmerc +lat_0=33 +lon_0=129.5 +k=0.9999 +x_0=0 +y_0=0 +ellps=GRS80 +towgs84=0,0,0,0,0,0,0 +units=m +no_defs +type=crs"@)
    } else if name == "公共座標2系"@ {
        Some("+proj=tmerc +lat_0=33 +lon_0=131 +k=0.9999 +x_0=0 +y_0=0 +ellps=GRS80 +towgs84=0,0,0,0,0,0,0 +units=m +no_defs +type=crs"@)
    } else if name == "公共座標3系"@ {
        Some("+proj=tmerc +lat_0=36 +lon_0=132.166666666667 +k=0.9999 +x_0=0 +y_0=0 +ellps=GRS80 +towgs84=0,0,0,0,0,0,0 +units=m +no_defs +type=crs"@)
    } else if name == "公共座標4系"@ {
        Some("+proj=tmerc +lat_0=33 +lon_0=133.5 +k=0.9999 +x_0=0 +y_0=0 +ellps=GRS80 +towgs84=0,0,0,0,0,0,0 +units=m +no_defs +type=crs"@)
    } else if name == "公共座標5系"@ {
        Some("+proj=tmerc +lat_0=36 +lon_0=134.333333333333 +k=0.9999 +x_0=0 +y_0=0 +ellps=GRS80 +towgs84=0,0,0,0,0,0,0 +units=m +no_defs +type=crs"@)
    } else if name == "公共座標6系"@ {
        Some("+proj=tmerc +lat_0=36 +lon_0=136 +k=0.9999 +x_0=0 +y_0=0 +ellps=GRS80 +towgs84=0,0,0,0,0,0,0 +units=m +no_defs +type=crs"@)
    } else if name == "公共座標7系"@ {
        Some("+proj=tmerc +lat_0=36 +lon_0=137.166666666667 +k=0.9999 +x_0=0 +y_0=0 +ellps=GRS80 +towgs84=0,0,0,0,0,0,0 +units=m +no_defs +type=crs"@)
    } else if name == "公共座標8系"@ {
        Some("+proj=tmerc +lat_0=36 +lon_0=138.5 +k=0.9999 +x_0=0 +y_0=0 +ellps=GRS80 +towgs84=0,0,0,0,0,0,0 +units=m +no_defs +type=crs"@)
    } else if name == "公共座標9系"@ {
        Some("+proj=tmerc +lat_0=36 +lon_0=139.833333333333 +k=0.9999 +x_0=0 +y_0=0 +ellps=GRS80 +towgs84=0,0,0,0,0,0,0 +units=m +no_defs +type=crs"@)
    } else if name == "公共座標10系"@ {
        Some("+proj=tmerc +lat_0=40 +lon_0=140.833333333333 +k=0.9999 +x_0=0 +y_0=0 +ellps=GRS80 +towgs84=0,0,0,0,0,0,0 +units=m +no_defs +type=crs"@)
    } else if name == "公共座標11系"@ {
        Some("+proj=tmerc +lat_0=44 +lon_0=140.25 +k=0.9999 +x_0=0 +y_0=0 +ellps=GRS80 +towgs84=0,0,0,0,0,0,0 +units=m +no_defs +type=crs"@)
    } else if name == "公共座標12系"@ {
        Some("+proj=tmerc +lat_0=44 +lon_0=142.25 +k=0.9999 +x_0=0 +y_0=0 +ellps=GRS80 +towgs84=0,0,0,0,0,0,0 +units=m +no_defs +type=crs"@)
    } else if name == "公共座標13系"@ {
        Some("+proj=tmerc +lat_0=44 +lon_0=144.25 +k=0.9999 +x_0=0 +y_0=0 +ellps=GRS80 +towgs84=0,0,0,0,0,0,0 +units=m +no_defs +type=crs"@)
    } else if name == "公共座標14系"@ {
        Some("+proj=tmerc +lat_0=26 +lon_0=142 +k=0.9999 +x_0=0 +y_0=0 +ellps=GRS80 +towgs84=0,0,0,0,0,0,0 +units=m +no_defs +type=crs"@)
    } else if name == "公共座標15系"@ {
        Some("+proj=tmerc +lat_0=26 +lon_0=127.5 +k=0.9999 +x_0=0 +y_0=0 +ellps=GRS80 +towgs84=0,0,0,0,0,0,0 +units=m +no_defs +type=crs"@)
    } else if name == "公共座標16系"@ {
        Some("+proj=tmerc +lat_0=26 +lon_0=124 +k=0.9999 +x_0=0 +y_0=0 +ellps=GRS80 +towgs84=0,0,0,0,0,0,0 +units=m +no_defs +type=crs"@)
    } else if name == "公共座標17系"@ {
        Some("+proj=tmerc +lat_0=26 +lon_0=131 +k=0.9999 +x_0=0 +y_0=0 +ellps=GRS80 +towgs84=0,0,0,0,0,0,0 +units=m +no_defs +type=crs"@)
    } else if name == "公共座標18系"@ {
        Some("+proj=tmerc +lat_0=20 +lon_0=136 +k=0.9999 +x_0=0 +y_0=0 +ellps=GRS80 +towgs84=0,0,0,0,0,0,0 +units=m +no_defs +type=crs"@)
    } else if name == "公共座標19系"@ {
        Some("+proj=tmerc +lat_0=26 +lon_0=154 +k=0.9999 +x_0=0 +y_0=0 +ellps=GRS80 +towgs84=0,0,0,0,0,0,0 +units=m +no_defs +type=crs"@)
    } else {
        None
    }
}

/// Map a coordinate-system display name to its projection parameters:
/// the arbitrary sentinel maps to `Ok(None)`, a recognized projected
/// system to its parameter string, and anything else is an error
/// naming the raw string.
pub fn get_proj(name: &str) -> (r: Result<Option<&'static str>, Error>)
    ensures
        name@ == arbitrary_crs_name() ==> r matches Ok(None),
        name@ != arbitrary_crs_name() ==> match crs_param(name@) {
            Some(p) => r matches Ok(q) && q matches Some(s) && s@ == p,
            None => r matches Err(e) && e@ == ErrorV::UnsupportedCrs(name@),
        },
{
    if str_eq(name, "任意座標系") {
        Ok(None)
    } else if str_eq(name, "WGS84") {
        Ok(Some("+proj=longlat +ellps=WGS84 +datum=WGS84 +no_defs"))
    } else if str_eq(name, "公共座標1系") {
        Ok(Some("+proj=tmerc +lat_0=33 +lon_0=129.5 +k=0.9999 +x_0=0 +y_0=0 +ellps=GRS80 +towgs84=0,0,0,0,0,0,0 +units=m +no_defs +type=crs"))
    } else if str_eq(name, "公共座標2系") {
        Ok(Some("+proj=tmerc +lat_0=33 +lon_0=131 +k=0.9999 +x_0=0 +y_0=0 +ellps=GRS80 +towgs84=0,0,0,0,0,0,0 +units=m +no_defs +type=crs"))
    } else if str_eq(name, "公共座標3系") {
        Ok(Some("+proj=tmerc +lat_0=36 +lon_0=132.166666666667 +k=0.9999 +x_0=0 +y_0=0 +ellps=GRS80 +towgs84=0,0,0,0,0,0,0 +units=m +no_defs +type=crs"))
    } else if str_eq(name, "公共座標4系") {
        Ok(Some("+proj=tmerc +lat_0=33 +lon_0=133.5 +k=0.9999 +x_0=0 +y_0=0 +ellps=GRS80 +towgs84=0,0,0,0,0,0,0 +units=m +no_defs +type=crs"))
    } else if str_eq(name, "公共座標5系") {
        Ok(Some("+proj=tmerc +lat_0=36 +lon_0=134.333333333333 +k=0.9999 +x_0=0 +y_0=0 +ellps=GRS80 +towgs84=0,0,0,0,0,0,0 +units=m +no_defs +type=crs"))
    } else if str_eq(name, "公共座標6系") {
        Ok(Some("+proj=tmerc +lat_0=36 +lon_0=136 +k=0.9999 +x_0=0 +y_0=0 +ellps=GRS80 +towgs84=0,0,0,0,0,0,0 +units=m +no_defs +type=crs"))
    } else if str_eq(name, "公共座標7系") {
        Ok(Some("+proj=tmerc +lat_0=36 +lon_0=137.166666666667 +k=0.9999 +x_0=0 +y_0=0 +ellps=GRS80 +towgs84=0,0,0,0,0,0,0 +units=m +no_defs +type=crs"))
    } else if str_eq(name, "公共座標8系") {
        Ok(Some("+proj=tmerc +lat_0=36 +lon_0=138.5 +k=0.9999 +x_0=0 +y_0=0 +ellps=GRS80 +towgs84=0,0,0,0,0,0,0 +units=m +no_defs +type=crs"))
    } else if str_eq(name, "公共座標9系") {
        Ok(Some("+proj=tmerc +lat_0=36 +lon_0=139.833333333333 +k=0.9999 +x_0=0 +y_0=0 +ellps=GRS80 +towgs84=0,0,0,0,0,0,0 +units=m +no_defs +type=crs"))
    } else if str_eq(name, "公共座標10系") {
        Ok(Some("+proj=tmerc +lat_0=40 +lon_0=140.833333333333 +k=0.9999 +x_0=0 +y_0=0 +ellps=GRS80 +towgs84=0,0,0,0,0,0,0 +units=m +no_defs +type=crs"))
    } else if str_eq(name, "公共座標11系") {
        Ok(Some("+proj=tmerc +lat_0=44 +lon_0=140.25 +k=0.9999 +x_0=0 +y_0=0 +ellps=GRS80 +towgs84=0,0,0,0,0,0,0 +units=m +no_defs +type=crs"))
    } else if str_eq(name, "公共座標12系") {
        Ok(Some("+proj=tmerc +lat_0=44 +lon_0=142.25 +k=0.9999 +x_0=0 +y_0=0 +ellps=GRS80 +towgs84=0,0,0,0,0,0,0 +units=m +no_defs +type=crs"))
    } else if str_eq(name, "公共座標13系") {
        Ok(Some("+proj=tmerc +lat_0=44 +lon_0=144.25 +k=0.9999 +x_0=0 +y_0=0 +ellps=GRS80 +towgs84=0,0,0,0,0,0,0 +units=m +no_defs +type=crs"))
    } else if str_eq(name, "公共座標14系") {
        Ok(Some("+proj=tmerc +lat_0=26 +lon_0=142 +k=0.9999 +x_0=0 +y_0=0 +ellps=GRS80 +towgs84=0,0,0,0,0,0,0 +units=m +no_defs +type=crs"))
    } else if str_eq(name, "公共座標15系") {
        Ok(Some("+proj=tmerc +lat_0=26 +lon_0=127.5 +k=0.9999 +x_0=0 +y_0=0 +ellps=GRS80 +towgs84=0,0,0,0,0,0,0 +units=m +no_defs +type=crs"))
    } else if str_eq(name, "公共座標16系") {
        Ok(Some("+proj=tmerc +lat_0=26 +lon_0=124 +k=0.9999 +x_0=0 +y_0=0 +ellps=GRS80 +towgs84=0,0,0,0,0,0,0 +units=m +no_defs +type=crs"))
    } else if str_eq(name, "公共座標17系") {
        Ok(Some("+proj=tmerc +lat_0=26 +lon_0=131 +k=0.9999 +x_0=0 +y_0=0 +ellps=GRS80 +towgs84=0,0,0,0,0,0,0 +units=m +no_defs +type=crs"))
    } else if str_eq(name, "公共座標18系") {
        Ok(Some("+proj=tmerc +lat_0=20 +lon_0=136 +k=0.9999 +x_0=0 +y_0=0 +ellps=GRS80 +towgs84=0,0,0,0,0,0,0 +units=m +no_defs +type=crs"))
    } else if str_eq(name, "公共座標19系") {
        Ok(Some("+proj=tmerc +lat_0=26 +lon_0=154 +k=0.9999 +x_0=0 +y_0=0 +ellps=GRS80 +towgs84=0,0,0,0,0,0,0 +units=m +no_defs +type=crs"))
    } else {
        Err(Error::UnsupportedCrs(name.to_owned()))
    }
}

/// The projection parameters of the fixed global target system.
pub open spec fn wgs84_param() -> Seq<char> {
    "+proj=longlat +ellps=WGS84 +datum=WGS84 +no_defs"@
}

/// The parameter strings of the library's own table: those and no
/// others are handed to the projection library.  None of them names a
/// datum grid, so on them the library computes from its arguments
/// alone.
pub open spec fn table_param(s: Seq<char>) -> bool {
    exists|n: Seq<char>| #[trigger] crs_param(n) == Some(s)
}

/// What the projection library computes for one coordinate, carried
/// from the source parameter string to the target parameter string.
/// The name is only ever applied to the table's parameter strings,
/// for which the result depends on the arguments alone: the
/// transformed bit patterns, or `None` when the library rejects the
/// parameters or the coordinate.
pub uninterp spec fn reproject_of(src: Seq<char>, dst: Seq<char>, x: u64, y: u64) -> Option<
    (u64, u64),
>;

/// Relies on proj4rs (proj::Proj::from_proj_string and
/// transform::transform).  The admitted parameter strings come from
/// the table above and carry no datum-grid directive, so both calls
/// are deterministic in the parameter strings and the coordinate.
#[verifier::external_body]
fn reproject_bits(src: &str, dst: &str, x: u64, y: u64) -> (r: Option<(u64, u64)>)
    requires
        table_param(src@),
        dst@ == wgs84_param(),
    ensures
        r == reproject_of(src@, dst@, x, y),
{
    let sp = proj4rs::proj::Proj::from_proj_string(src);
    let dp = proj4rs::proj::Proj::from_proj_string(dst);
    let (sp, dp) = match (sp, dp) {
        (Ok(a), Ok(b)) => (a, b),
        _ => return None,
    };
    let c: geo_types::Coord = geo_types::Coord { x: bytemuck::cast(x), y: bytemuck::cast(y) };
    let mut pt = (c.x, c.y);
    match proj4rs::transform::transform(&sp, &dp, &mut pt) {
        Ok(()) => Some((pt.0.to_bits(), pt.1.to_bits())),
        Err(_) => None,
    }
}

/// The coordinate a curve ends up with after reprojection: the
/// transform through the two parameter strings, then the
/// radians-to-degrees conversion of both axes.
pub open spec fn transformed_pt(src: Seq<char>, dst: Seq<char>, p: PtBits) -> Option<PtBits> {
    match reproject_of(src, dst, p.0, p.1) {
        Some(t) => Some((degrees_of(t.0), degrees_of(t.1))),
        None => None,
    }
}

/// Transform every curve coordinate from the source system into the
/// target system, converting the result from radians to degrees.
/// Fails with a projection error as soon as one coordinate is
/// rejected; the input is left as it was.
#[verifier::loop_isolation(false)]
pub fn transform_curves_crs(
    curves: &Vec<(String, PtBits)>,
    src: &str,
    dst: &str,
) -> (r: Result<Vec<(String, PtBits)>, Error>)
    requires
        table_param(src@),
        dst@ == wgs84_param(),
    ensures
        r matches Ok(out) ==> {
            &&& out@.len() == curves@.len()
            &&& forall|i: int|
                0 <= i < curves@.len() ==> (#[trigger] out@[i]).0@ == curves@[i].0@ && Some(
                    out@[i].1,
                ) == transformed_pt(src@, dst@, curves@[i].1)
        },
        r is Ok <==> (forall|i: int|
            0 <= i < curves@.len() ==> (#[trigger] transformed_pt(src@, dst@, curves@[i].1))
                is Some),
        r matches Err(e) ==> e@ == ErrorV::Projection,
{
    let mut out: Vec<(String, PtBits)> = Vec::new();
    let mut i: usize = 0;
    while i < curves.len()
        invariant
            0 <= i <= curves@.len(),
            out@.len() == i,
            forall|k: int|
                0 <= k < i ==> (#[trigger] out@[k]).0@ == curves@[k].0@ && Some(out@[k].1)
                    == transformed_pt(src@, dst@, curves@[k].1),
        decreases curves@.len() - i,
    {
        let (id, p) = &curves[i];
        match reproject_bits(src, dst, p.0, p.1) {
            Some(t) => {
                let q: PtBits = (degrees_bits(t.0), degrees_bits(t.1));
                out.push((id.clone(), q));
            },
            None => {
                proof {
                    assert(transformed_pt(src@, dst@, curves@[i as int].1) is None);
                }
                return Err(Error::Projection);
            },
        }
        i = i + 1;
    }
    proof {
        assert forall|k: int| 0 <= k < curves@.len() implies (#[trigger] transformed_pt(
            src@,
            dst@,
            curves@[k].1,
        )) is Some by {
            assert(Some(out@[k].1) == transformed_pt(src@, dst@, curves@[k].1));
        }
    }
    Ok(out)
}

} // verus!
