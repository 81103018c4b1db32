//! The verified core of the adaptive grain mask: which clip formats the mask
//! accepts, which format it produces, which sample kernel processes a clip, and
//! how integer samples are mapped through the 256-entry mask table.
pub mod format;
pub mod lut;
