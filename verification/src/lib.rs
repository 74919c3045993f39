//! Decision logic of the API binding generator and of the request-context
//! helpers, with the naming and type-mapping rules stated as contracts.

pub mod text;
pub mod case_conv;
pub mod api;
pub mod naming;
pub mod rust_type;
pub mod decl;
pub mod methods;
pub mod module;
pub mod fetch;
