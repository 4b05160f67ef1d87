/// Colors.
pub mod color;
