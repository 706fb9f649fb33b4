//! Register tables of RobStride motors and the decisions of the gateway
//! that streams their parameters.
pub mod registers;
pub mod text;
pub mod params;
pub mod stream;
pub mod dispatch;
