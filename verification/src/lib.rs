//! Semantic front end for a hardware-description-language toolchain:
//! resolution of source-level name expressions (dotted, indexed, sliced,
//! external) against a static scope, a separated-list parser, and source
//! position bookkeeping.

pub mod analyze;
pub mod ast;
pub mod diagnostic;
pub mod entity;
pub mod latin1;
pub mod laws;
pub mod names;
pub mod separated_list;
pub mod source;
pub mod syntax;
