//! The object-model core of an interpreter for a dynamically typed guest
//! language: object cells in an arena, type descriptors with attribute
//! tables and subclass walks, a uniform calling convention for native
//! routines, the sequence protocol, and the built-in list type.
pub mod bignum;
pub mod object;
pub mod sequence;
pub mod dispatch;
pub mod objlist;
pub mod repr;
pub mod lemmas;
