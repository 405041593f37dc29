//! Builds a query schema (root query and mutation types plus every auxiliary
//! object and input type) from a data model.
pub mod argument_builder;
pub mod data_model;
pub mod filter_builder;
pub mod input_builder;
pub mod model_surface;
pub mod naming;
pub mod object_builder;
pub mod query_schema_builder;
pub mod schema;
