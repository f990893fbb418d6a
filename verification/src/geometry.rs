//! Sketch and part rules: the constraint state of a sketch, the
//! rectangular profile, the points a profile keeps for analysis, and the
//! checks on an extrusion. Coordinates, depths and densities are held as
//! the bit patterns of their `f64` values; perimeter, area, centroid,
//! volume and mass are `f64` arithmetic done by the caller.
use vstd::prelude::*;
use crate::floatbits::{bits_eq, bits_is_finite, bits_le, f64_eq, f64_le, is_finite};

verus! {

/// How many constraints a sketch carries relative to its points.
#[derive(Debug, Clone, Copy, PartialEq, Eq)]
pub enum SketchConstraintState {
    UnderConstrained,
    WellConstrained,
    OverConstrained,
}

/// Errors raised while analysing sketches and regenerating parts.
#[derive(Debug, Clone, Copy, PartialEq, Eq)]
pub enum GeometryError {
    EmptySketch,
    NotEnoughPoints,
    NonFiniteCoordinate,
    DegenerateProfile,
    InvalidDepth,
    InvalidDensity,
    InvalidRectangleDimensions,
}

/// The constraint state of a sketch with `point_count` points and
/// `solved_constraint_count` solved constraints.
pub open spec fn sketch_state_spec(point_count: nat, solved_constraint_count: nat) -> SketchConstraintState {
    if solved_constraint_count < point_count {
        SketchConstraintState::UnderConstrained
    } else if solved_constraint_count == point_count {
        SketchConstraintState::WellConstrained
    } else {
        SketchConstraintState::OverConstrained
    }
}

pub fn evaluate_sketch_state(point_count: usize, solved_constraint_count: usize) -> (state: SketchConstraintState)
    ensures
        state == sketch_state_spec(point_count as nat, solved_constraint_count as nat),
{
    if solved_constraint_count < point_count {
        SketchConstraintState::UnderConstrained
    } else if solved_constraint_count == point_count {
        SketchConstraintState::WellConstrained
    } else {
        SketchConstraintState::OverConstrained
    }
}

/// The text of a geometry error.
pub fn geometry_error_message(e: GeometryError) -> (m: &'static str)
    ensures
        m@ == match e {
            GeometryError::EmptySketch => "sketch profile must contain at least one point"@,
            GeometryError::NotEnoughPoints => "sketch profile must contain at least three distinct points"@,
            GeometryError::NonFiniteCoordinate => "sketch profile contains a non-finite coordinate"@,
            GeometryError::DegenerateProfile => "sketch profile area must be greater than zero"@,
            GeometryError::InvalidDepth => "extrusion depth must be greater than zero"@,
            GeometryError::InvalidDensity => "material density must be greater than zero"@,
            GeometryError::InvalidRectangleDimensions => "rectangle dimensions must be greater than zero"@,
        },
{
    match e {
        GeometryError::EmptySketch => "sketch profile must contain at least one point",
        GeometryError::NotEnoughPoints => "sketch profile must contain at least three distinct points",
        GeometryError::NonFiniteCoordinate => "sketch profile contains a non-finite coordinate",
        GeometryError::DegenerateProfile => "sketch profile area must be greater than zero",
        GeometryError::InvalidDepth => "extrusion depth must be greater than zero",
        GeometryError::InvalidDensity => "material density must be greater than zero",
        GeometryError::InvalidRectangleDimensions => "rectangle dimensions must be greater than zero",
    }
}

/// A sketch point; the coordinates are `f64` patterns.
#[derive(Debug, Clone, Copy, PartialEq, Eq)]
pub struct SketchPoint {
    pub x_mm: u64,
    pub y_mm: u64,
}

#[derive(Debug, PartialEq, Eq)]
pub struct SketchProfile {
    pub points: Vec<SketchPoint>,
    pub solved_constraint_count: usize,
}

/// The extrusion of a profile; the depth is an `f64` pattern.
#[derive(Debug, Clone, Copy, PartialEq, Eq)]
pub struct ExtrusionDefinition {
    pub depth_mm: u64,
}

/// A material; the density is an `f64` pattern.
#[derive(Debug, PartialEq, Eq)]
pub struct MaterialProfile {
    pub name: String,
    pub density_kg_m3: u64,
}

/// The pattern of `2700.0`.
pub open spec fn aluminum_density() -> u64 {
    0x40A5_1800_0000_0000
}

impl MaterialProfile {
    /// Aluminium 6061 at 2700 kg/m³.
    pub fn aluminum_6061() -> (m: Self)
        ensures
            m.name@ == "Aluminum 6061"@,
            m.density_kg_m3 == aluminum_density(),
    {
        MaterialProfile { name: String::from_str("Aluminum 6061"), density_kg_m3: 0x40A5_1800_0000_0000 }
    }
}

/// `value <= 0.0` on the `f64` value (false for NaN).
pub open spec fn not_positive(value: u64) -> bool {
    f64_le(value, 0)
}

/// The corners of the rectangle `width × height` from the origin, counter-clockwise.
pub open spec fn rectangle_points(width_mm: u64, height_mm: u64) -> Seq<SketchPoint> {
    seq![
        SketchPoint { x_mm: 0, y_mm: 0 },
        SketchPoint { x_mm: width_mm, y_mm: 0 },
        SketchPoint { x_mm: width_mm, y_mm: height_mm },
        SketchPoint { x_mm: 0, y_mm: height_mm },
    ]
}

/// The rectangle `width × height` from the origin, counter-clockwise;
/// refused when a side is not positive (a NaN side is not refused).
pub fn rectangular_profile(width_mm: u64, height_mm: u64, solved_constraint_count: usize) -> (r: Result<SketchProfile, GeometryError>)
    ensures
        not_positive(width_mm) || not_positive(height_mm) ==> r == Err::<SketchProfile, GeometryError>(
            GeometryError::InvalidRectangleDimensions,
        ),
        !(not_positive(width_mm) || not_positive(height_mm)) ==> (r matches Ok(p) && p.solved_constraint_count
            == solved_constraint_count && p.points@ == rectangle_points(width_mm, height_mm)),
{
    if bits_le(width_mm, 0) || bits_le(height_mm, 0) {
        return Err(GeometryError::InvalidRectangleDimensions);
    }
    let mut points: Vec<SketchPoint> = Vec::new();
    points.push(SketchPoint { x_mm: 0, y_mm: 0 });
    points.push(SketchPoint { x_mm: width_mm, y_mm: 0 });
    points.push(SketchPoint { x_mm: width_mm, y_mm: height_mm });
    points.push(SketchPoint { x_mm: 0, y_mm: height_mm });
    Ok(SketchProfile { points, solved_constraint_count })
}

/// The two points are equal as `f64` pairs (NaN equals nothing).
pub open spec fn same_point(a: SketchPoint, b: SketchPoint) -> bool {
    f64_eq(a.x_mm, b.x_mm) && f64_eq(a.y_mm, b.y_mm)
}

/// The points a profile is analysed on: its points, less a last point that
/// repeats the first.
pub open spec fn kept_points(points: Seq<SketchPoint>) -> Seq<SketchPoint> {
    if points.len() > 1 && same_point(points[0], points.last()) {
        points.drop_last()
    } else {
        points
    }
}

/// Both coordinates are finite.
pub open spec fn point_finite(p: SketchPoint) -> bool {
    is_finite(p.x_mm) && is_finite(p.y_mm)
}

/// Why a profile cannot be analysed before its area is known: no point,
/// fewer than three kept points, or a non-finite coordinate.
pub open spec fn profile_error(points: Seq<SketchPoint>) -> Option<GeometryError> {
    if points.len() == 0 {
        Some(GeometryError::EmptySketch)
    } else if kept_points(points).len() < 3 {
        Some(GeometryError::NotEnoughPoints)
    } else if exists|i: int| 0 <= i < kept_points(points).len() && !point_finite(#[trigger] kept_points(points)[i]) {
        Some(GeometryError::NonFiniteCoordinate)
    } else {
        None
    }
}

/// The points of `profile` to analyse, or why there are none.
pub fn normalized_points(profile: &SketchProfile) -> (r: Result<Vec<SketchPoint>, GeometryError>)
    ensures
        match profile_error(profile.points@) {
            Some(e) => r == Err::<Vec<SketchPoint>, GeometryError>(e),
            None => r matches Ok(v) && v@ == kept_points(profile.points@),
        },
{
    let n = profile.points.len();
    if n == 0 {
        return Err(GeometryError::EmptySketch);
    }
    let mut points: Vec<SketchPoint> = Vec::new();
    let mut i: usize = 0;
    while i < n
        invariant
            n == profile.points@.len(),
            i <= n,
            points@ == profile.points@.take(i as int),
        decreases n - i,
    {
        points.push(profile.points[i]);
        i = i + 1;
        assert(points@ =~= profile.points@.take(i as int));
    }
    assert(points@ =~= profile.points@);
    if n > 1 {
        let first = profile.points[0];
        let last = profile.points[n - 1];
        if bits_eq(first.x_mm, last.x_mm) && bits_eq(first.y_mm, last.y_mm) {
            points.pop();
        }
    }
    let ghost kept = kept_points(profile.points@);
    assert(points@ =~= kept);
    let m = points.len();
    if m < 3 {
        return Err(GeometryError::NotEnoughPoints);
    }
    let mut j: usize = 0;
    while j < m
        invariant
            m == points@.len(),
            points@ == kept,
            kept == kept_points(profile.points@),
            profile.points@.len() > 0,
            kept.len() >= 3,
            j <= m,
            forall|k: int| 0 <= k < j ==> point_finite(#[trigger] kept[k]),
        decreases m - j,
    {
        if !(bits_is_finite(points[j].x_mm) && bits_is_finite(points[j].y_mm)) {
            assert(!point_finite(kept[j as int]));
            return Err(GeometryError::NonFiniteCoordinate);
        }
        assert(point_finite(kept[j as int]));
        j = j + 1;
    }
    Ok(points)
}

/// Why an extrusion of this depth in this material is refused: a depth or
/// a density that is not positive and finite.
pub open spec fn extrusion_error(extrusion: ExtrusionDefinition, material: MaterialProfile) -> Option<GeometryError> {
    if not_positive(extrusion.depth_mm) || !is_finite(extrusion.depth_mm) {
        Some(GeometryError::InvalidDepth)
    } else if not_positive(material.density_kg_m3) || !is_finite(material.density_kg_m3) {
        Some(GeometryError::InvalidDensity)
    } else {
        None
    }
}

pub fn check_extrusion(extrusion: &ExtrusionDefinition, material: &MaterialProfile) -> (r: Result<(), GeometryError>)
    ensures
        match extrusion_error(*extrusion, *material) {
            Some(e) => r == Err::<(), GeometryError>(e),
            None => r is Ok,
        },
{
    if bits_le(extrusion.depth_mm, 0) || !bits_is_finite(extrusion.depth_mm) {
        return Err(GeometryError::InvalidDepth);
    }
    if bits_le(material.density_kg_m3, 0) || !bits_is_finite(material.density_kg_m3) {
        return Err(GeometryError::InvalidDensity);
    }
    Ok(())
}

} // verus!
