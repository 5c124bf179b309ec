//! Exact evaluation and reparameterization of piecewise polynomial (Bezier)
//! curves over an abstract point space whose scalars are exact rationals.
mod bezier;
mod composed_curve;
mod curve;
mod curve_iterator;
mod curve_point;
mod distance;
mod laws;
mod linear_speed;
mod point;
mod rat;
mod smooth_array;

pub use bezier::{Bezier, Bezier0, Bezier1, Bezier2, Bezier3};
pub use composed_curve::ComposedCurve;
pub use curve::{Curve, CurveLength};
pub use curve_iterator::CurveIterator;
pub use curve_point::CurvePoint;
pub use laws::{law_dot_is_constant, law_line_interpolates};
pub use distance::Distance;
pub use linear_speed::{lemma_linear_speed_idempotent, LinearSpeed};
pub use point::{Point, Point2D};
pub use rat::Rat;
pub use smooth_array::SmoothArray;
