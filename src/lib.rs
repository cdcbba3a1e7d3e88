//! A store of classes, each with a passphrase and a list of uploaded file
//! records, behind a pluggable persistence interface with an in-memory backend
//! and a collision-free identifier generation step.
pub mod db;
pub mod model;
