pub mod ikos;
pub mod zkboo;
