//! A resource mesh: stars host addressable particles, route waves between
//! them, and keep a registry of who owns what.
//!
//! The functions of this crate are verified, and their contracts are
//! stated over the views of the data types. Eight small functions are the
//! exception: each only makes a call that Verus cannot read, and its
//! contract is believed, not proved. They read a version (`semver`) and a
//! text (`String::from_utf8`) in `frame`, draw an identifier (`uuid`) and
//! read the clock (`chrono`) in `ids`, make a certificate (`rcgen`) in
//! `lane`, and make, fill and read a cache (`lru`) in `paths`.

pub mod access;
pub mod access_laws;
pub mod actor;
pub mod artifact;
pub mod constellation;
pub mod control;
pub mod db;
pub mod error;
pub mod frame;
pub mod handshake;
pub mod ids;
pub mod interchange;
pub mod kind;
pub mod lane;
pub mod locator;
pub mod manage;
pub mod message;
pub mod particle;
pub mod paths;
pub mod point;
pub mod query;
pub mod registry;
pub mod resource;
pub mod router;
pub mod search;
pub mod security;
pub mod select;
pub mod star;
pub mod selector;
pub mod text;
pub mod traversal;
pub mod wave;
