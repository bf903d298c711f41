//! Verified core of a portfolio site backend: entity models with field
//! validation, an in-memory store per entity with the repository operations,
//! services holding the business rules, the route dispatch, and the uniform
//! error and response envelope.
pub mod contact;
pub mod envelope;
pub mod error;
pub mod jsonlist;
pub mod laws;
pub mod profile;
pub mod project;
pub mod routes;
pub mod skill;
pub mod text;
pub mod validate;
