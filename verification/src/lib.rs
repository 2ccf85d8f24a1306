//! Shared workspace manifests over content-addressed storage: manifest records,
//! fork / merge of workspaces, content-store bookkeeping and run records.

pub mod digest;
pub mod entries;
pub mod ipld;
pub mod json;
pub mod requests;
pub mod run_ops;
pub mod sandbox;
pub mod store;
pub mod text;
pub mod uor_impl;
pub mod workspace;
