use ep_rs::curves::CurveType;

#[test]
fn num_dims_and_coefficients() {
    assert_eq!(CurveType::Linear.num_dims(), 1);
    assert_eq!(CurveType::Linear.num_coefficients(), 2);
    assert_eq!(CurveType::BiQuadratic.num_dims(), 2);
    assert_eq!(CurveType::BiQuadratic.num_coefficients(), 6);
    assert_eq!(CurveType::TriQuadratic.num_dims(), 3);
    assert_eq!(CurveType::TriQuadratic.num_coefficients(), 27);
}

#[test]
fn other_curve_shapes() {
    assert_eq!(CurveType::QuadLinear.num_dims(), 4);
    assert_eq!(CurveType::QuintLinear.num_dims(), 5);
    assert_eq!(CurveType::QuintLinear.num_coefficients(), 6);
    assert_eq!(CurveType::TableLookup.num_dims(), 6);
    assert_eq!(CurveType::TableLookup.num_coefficients(), 0);
    assert_eq!(CurveType::ChillerPartLoadWithLift.num_dims(), 3);
    assert_eq!(CurveType::ChillerPartLoadWithLift.num_coefficients(), 12);
    assert_eq!(CurveType::BiCubic.num_coefficients(), 10);
    assert_eq!(CurveType::Sigmoid.num_coefficients(), 5);
    assert_eq!(CurveType::FanPressureRise.num_dims(), 2);
    assert_eq!(CurveType::FanPressureRise.num_coefficients(), 4);
}
