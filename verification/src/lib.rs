//! Discriminant mapping for enums: resolves each variant of an enum
//! declaration to a small integer id (explicit literals, auto-increment,
//! saturation at the type's maximum) and derives the two conversions,
//! enum to integer and integer to enum (total when a catch-all variant
//! is present, fallible otherwise).

pub mod convert;
pub mod emit;
pub mod laws;
pub mod model;
