//! Performance curve metadata: the curve families and their shapes.

use vstd::prelude::*;

verus! {

/// The functional forms a performance curve can take.
#[derive(Debug, Clone, Copy, PartialEq, Eq, Structural)]
pub enum CurveType {
    Linear,
    Quadratic,
    Cubic,
    Quartic,
    BiQuadratic,
    QuadraticLinear,
    CubicLinear,
    BiCubic,
    TriQuadratic,
    Exponent,
    FanPressureRise,
    ExponentialSkewNormal,
    Sigmoid,
    RectangularHyperbola1,
    RectangularHyperbola2,
    ExponentialDecay,
    DoubleExponentialDecay,
    QuadLinear,
    QuintLinear,
    ChillerPartLoadWithLift,
    TableLookup,
}

/// Number of independent variables of a curve family.
pub open spec fn curve_dims(t: CurveType) -> int {
    match t {
        CurveType::Linear | CurveType::Quadratic | CurveType::Cubic | CurveType::Quartic
        | CurveType::Exponent | CurveType::ExponentialSkewNormal | CurveType::Sigmoid
        | CurveType::RectangularHyperbola1 | CurveType::RectangularHyperbola2
        | CurveType::ExponentialDecay | CurveType::DoubleExponentialDecay => 1,
        CurveType::BiQuadratic | CurveType::QuadraticLinear | CurveType::CubicLinear
        | CurveType::BiCubic | CurveType::FanPressureRise => 2,
        CurveType::TriQuadratic | CurveType::ChillerPartLoadWithLift => 3,
        CurveType::QuadLinear => 4,
        CurveType::QuintLinear => 5,
        CurveType::TableLookup => 6,
    }
}

/// Number of coefficients of a curve family.
pub open spec fn curve_coefficients(t: CurveType) -> int {
    match t {
        CurveType::Linear => 2,
        CurveType::Quadratic => 3,
        CurveType::Cubic => 4,
        CurveType::Quartic | CurveType::QuadLinear => 5,
        CurveType::BiQuadratic | CurveType::QuadraticLinear | CurveType::CubicLinear
        | CurveType::QuintLinear => 6,
        CurveType::BiCubic => 10,
        CurveType::TriQuadratic => 27,
        CurveType::Exponent | CurveType::RectangularHyperbola1
        | CurveType::RectangularHyperbola2 | CurveType::ExponentialDecay => 3,
        CurveType::FanPressureRise => 4,
        CurveType::ExponentialSkewNormal | CurveType::Sigmoid => 5,
        CurveType::DoubleExponentialDecay => 5,
        CurveType::ChillerPartLoadWithLift => 12,
        CurveType::TableLookup => 0,
    }
}

/// The independent variables of each curve family: one for the curves in a
/// single input (the polynomials up to quartic, exponent, skew-normal,
/// sigmoid, rectangular hyperbolas and exponential decays); two for
/// biquadratic, quadratic-linear, cubic-linear, bicubic and fan pressure
/// rise, which are functions of `x` and `y`; three for triquadratic and the
/// chiller part-load curve with lift; four for quad-linear, five for
/// quint-linear; and six for a table lookup.
pub proof fn lemma_curve_dims(t: CurveType)
    ensures
        (curve_dims(t) == 2) <==> (t == CurveType::BiQuadratic || t == CurveType::QuadraticLinear
            || t == CurveType::CubicLinear || t == CurveType::BiCubic || t
            == CurveType::FanPressureRise),
        (curve_dims(t) == 3) <==> (t == CurveType::TriQuadratic || t
            == CurveType::ChillerPartLoadWithLift),
        (curve_dims(t) == 4) <==> t == CurveType::QuadLinear,
        (curve_dims(t) == 5) <==> t == CurveType::QuintLinear,
        (curve_dims(t) == 6) <==> t == CurveType::TableLookup,
        (curve_dims(t) == 1) <==> (t == CurveType::Linear || t == CurveType::Quadratic || t
            == CurveType::Cubic || t == CurveType::Quartic || t == CurveType::Exponent || t
            == CurveType::ExponentialSkewNormal || t == CurveType::Sigmoid || t
            == CurveType::RectangularHyperbola1 || t == CurveType::RectangularHyperbola2 || t
            == CurveType::ExponentialDecay || t == CurveType::DoubleExponentialDecay),
{
}

/// The coefficient counts: a polynomial in one variable of degree `d` has
/// `d + 1` coefficients (linear 2, quadratic 3, cubic 4, quartic 5); the
/// two-variable quadratic and mixed forms have 6 and the bicubic 10; the
/// triquadratic has 27, one for each product of powers up to two of its
/// three variables; quad-linear has 5 and quint-linear 6, one per variable
/// plus a constant; a table lookup has none.
pub proof fn lemma_curve_coefficients(t: CurveType)
    ensures
        t == CurveType::Linear ==> curve_coefficients(t) == 1 + 1,
        t == CurveType::Quadratic ==> curve_coefficients(t) == 2 + 1,
        t == CurveType::Cubic ==> curve_coefficients(t) == 3 + 1,
        t == CurveType::Quartic ==> curve_coefficients(t) == 4 + 1,
        t == CurveType::BiQuadratic || t == CurveType::QuadraticLinear || t == CurveType::CubicLinear
            ==> curve_coefficients(t) == 6,
        t == CurveType::BiCubic ==> curve_coefficients(t) == 10,
        t == CurveType::TriQuadratic ==> curve_coefficients(t) == 3 * 3 * 3,
        t == CurveType::QuadLinear ==> curve_coefficients(t) == 4 + 1,
        t == CurveType::QuintLinear ==> curve_coefficients(t) == 5 + 1,
        t == CurveType::Exponent || t == CurveType::RectangularHyperbola1 || t
            == CurveType::RectangularHyperbola2 || t == CurveType::ExponentialDecay
            ==> curve_coefficients(t) == 3,
        t == CurveType::FanPressureRise ==> curve_coefficients(t) == 4,
        t == CurveType::ExponentialSkewNormal || t == CurveType::Sigmoid || t
            == CurveType::DoubleExponentialDecay ==> curve_coefficients(t) == 5,
        t == CurveType::ChillerPartLoadWithLift ==> curve_coefficients(t) == 12,
        t == CurveType::TableLookup ==> curve_coefficients(t) == 0,
        curve_coefficients(t) == 0 <==> t == CurveType::TableLookup,
{
}

impl CurveType {
    /// Number of independent variables for this curve type.
    pub fn num_dims(&self) -> (r: u8)
        ensures
            r == curve_dims(*self),
    {
        match self {
            CurveType::Linear
            | CurveType::Quadratic
            | CurveType::Cubic
            | CurveType::Quartic
            | CurveType::Exponent
            | CurveType::ExponentialSkewNormal
            | CurveType::Sigmoid
            | CurveType::RectangularHyperbola1
            | CurveType::RectangularHyperbola2
            | CurveType::ExponentialDecay
            | CurveType::DoubleExponentialDecay => 1,

            CurveType::BiQuadratic
            | CurveType::QuadraticLinear
            | CurveType::CubicLinear
            | CurveType::BiCubic
            | CurveType::FanPressureRise => 2,

            CurveType::TriQuadratic | CurveType::ChillerPartLoadWithLift => 3,

            CurveType::QuadLinear => 4,
            CurveType::QuintLinear => 5,
            CurveType::TableLookup => 6,
        }
    }

    /// Number of coefficients for this curve type.
    pub fn num_coefficients(&self) -> (r: usize)
        ensures
            r == curve_coefficients(*self),
    {
        match self {
            CurveType::Linear => 2,
            CurveType::Quadratic => 3,
            CurveType::Cubic => 4,
            CurveType::Quartic | CurveType::QuadLinear => 5,
            CurveType::BiQuadratic | CurveType::QuadraticLinear | CurveType::CubicLinear
            | CurveType::QuintLinear => 6,
            CurveType::BiCubic => 10,
            CurveType::TriQuadratic => 27,
            CurveType::Exponent | CurveType::RectangularHyperbola1
            | CurveType::RectangularHyperbola2 | CurveType::ExponentialDecay => 3,
            CurveType::FanPressureRise => 4,
            CurveType::ExponentialSkewNormal | CurveType::Sigmoid => 5,
            CurveType::DoubleExponentialDecay => 5,
            CurveType::ChillerPartLoadWithLift => 12,
            CurveType::TableLookup => 0,
        }
    }
}

} // verus!
