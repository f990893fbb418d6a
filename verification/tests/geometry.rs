use faero::geometry::{
    check_extrusion, evaluate_sketch_state, geometry_error_message, normalized_points,
    rectangular_profile, ExtrusionDefinition, GeometryError, MaterialProfile,
    SketchConstraintState, SketchPoint, SketchProfile,
};

fn point(x_mm: f64, y_mm: f64) -> SketchPoint {
    SketchPoint {
        x_mm: x_mm.to_bits(),
        y_mm: y_mm.to_bits(),
    }
}

fn profile(points: Vec<SketchPoint>, solved_constraint_count: usize) -> SketchProfile {
    SketchProfile {
        points,
        solved_constraint_count,
    }
}

#[test]
fn evaluates_sketch_state_across_all_constraint_levels() {
    assert_eq!(evaluate_sketch_state(4, 2), SketchConstraintState::UnderConstrained);
    assert_eq!(evaluate_sketch_state(4, 4), SketchConstraintState::WellConstrained);
    assert_eq!(evaluate_sketch_state(4, 5), SketchConstraintState::OverConstrained);
}

#[test]
fn rectangle_profiles_start_at_the_origin() {
    let rectangle = rectangular_profile(120.0_f64.to_bits(), 80.0_f64.to_bits(), 4).expect("valid rectangle");
    assert_eq!(
        rectangle.points,
        vec![point(0.0, 0.0), point(120.0, 0.0), point(120.0, 80.0), point(0.0, 80.0)]
    );
    assert_eq!(rectangle.solved_constraint_count, 4);
    assert_eq!(
        rectangular_profile(0.0_f64.to_bits(), 25.0_f64.to_bits(), 4),
        Err(GeometryError::InvalidRectangleDimensions)
    );
    assert_eq!(
        rectangular_profile(10.0_f64.to_bits(), (-1.0_f64).to_bits(), 4),
        Err(GeometryError::InvalidRectangleDimensions)
    );
    assert!(rectangular_profile(f64::NAN.to_bits(), 1.0_f64.to_bits(), 4).is_ok());
}

#[test]
fn closing_point_is_dropped_and_invalid_profiles_are_refused() {
    let closed = profile(
        vec![point(0.0, 0.0), point(50.0, 0.0), point(50.0, 50.0), point(0.0, 50.0), point(0.0, 0.0)],
        4,
    );
    assert_eq!(normalized_points(&closed).expect("closed profile").len(), 4);
    let signed_zero = profile(
        vec![point(0.0, 0.0), point(50.0, 0.0), point(50.0, 50.0), point(-0.0, 0.0)],
        4,
    );
    assert_eq!(normalized_points(&signed_zero).expect("closed by -0.0").len(), 3);
    assert_eq!(normalized_points(&profile(vec![], 0)), Err(GeometryError::EmptySketch));
    assert_eq!(
        normalized_points(&profile(vec![point(0.0, 0.0), point(10.0, 0.0)], 1)),
        Err(GeometryError::NotEnoughPoints)
    );
    assert_eq!(
        normalized_points(&profile(vec![point(0.0, 0.0), point(10.0, 0.0), point(0.0, 0.0)], 1)),
        Err(GeometryError::NotEnoughPoints)
    );
    assert_eq!(
        normalized_points(&profile(vec![point(0.0, 0.0), point(f64::NAN, 10.0), point(20.0, 20.0)], 3)),
        Err(GeometryError::NonFiniteCoordinate)
    );
    let nan_closing = profile(
        vec![point(f64::NAN, 0.0), point(10.0, 0.0), point(10.0, 10.0), point(f64::NAN, 0.0)],
        4,
    );
    assert_eq!(normalized_points(&nan_closing), Err(GeometryError::NonFiniteCoordinate));
}

#[test]
fn extrusion_needs_positive_finite_depth_and_density() {
    let aluminum = MaterialProfile::aluminum_6061();
    assert_eq!(aluminum.name, "Aluminum 6061");
    assert_eq!(f64::from_bits(aluminum.density_kg_m3), 2_700.0);
    assert!(check_extrusion(&ExtrusionDefinition { depth_mm: 15.0_f64.to_bits() }, &aluminum).is_ok());
    assert_eq!(
        check_extrusion(&ExtrusionDefinition { depth_mm: 0.0_f64.to_bits() }, &aluminum),
        Err(GeometryError::InvalidDepth)
    );
    assert_eq!(
        check_extrusion(&ExtrusionDefinition { depth_mm: f64::INFINITY.to_bits() }, &aluminum),
        Err(GeometryError::InvalidDepth)
    );
    let void = MaterialProfile {
        name: "Void".to_string(),
        density_kg_m3: 0.0_f64.to_bits(),
    };
    assert_eq!(
        check_extrusion(&ExtrusionDefinition { depth_mm: 10.0_f64.to_bits() }, &void),
        Err(GeometryError::InvalidDensity)
    );
    assert_eq!(
        geometry_error_message(GeometryError::InvalidDensity),
        "material density must be greater than zero"
    );
}
