//! Component resolution and render orchestration for a template-driven site
//! generator: discovering component sources, building the name-to-source table
//! with last-write-wins overrides, capturing render inputs, and finishing the
//! rendered output.

pub mod table;
pub mod error;
pub mod components;
pub mod inputs;
pub mod discovery;
pub mod render;
