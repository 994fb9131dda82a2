use vstd::prelude::*;

pub mod text;
pub mod errors;
pub mod value_objects;
pub mod time;
pub mod tags;
pub mod keyed;
pub mod filter;
pub mod lifecycle;
pub mod evaluation;
pub mod models;
pub mod memory_store;
pub mod ports;
pub mod store;
pub mod lifecycle_repository;
pub mod lifecycle_service;
pub mod store_error;
pub mod minio;
pub mod routing;
pub mod config;
pub mod bucket;
pub mod dto;
pub mod lifecycle_handlers;
pub mod store_lifecycle;
pub mod lifecycle_adapter;
pub mod object_repository;
pub mod object_service;
pub mod versioning_service;
pub mod laws;
pub mod lifecycle_laws;
pub mod object_handlers;
pub mod versioned_store;
pub mod object_store_service;
pub mod versioning_handlers;

verus! {

} // verus!
