//! Exact fixed-point angles with a resolution of one microarcsecond, and a
//! reusable `Measure` contract that derives arithmetic and ordering for any
//! quantity type stored as an exact integer count of a fixed resolution unit.

pub mod angle;
pub mod measure;
pub mod rounding;

pub use angle::Angle;
pub use angle::DmsError;
pub use measure::Measure;
