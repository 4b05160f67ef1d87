/// Conversion that cannot fail.
pub mod convert;
/// What every kind of lump can do.
pub mod lump;
/// The operations that change the lumps of a container.
pub mod operation;
