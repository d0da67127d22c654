//! Computational core of a tracker of orbiting objects.
//!
//! - `text`, `parser`, `catalog`: the published catalog text, its grammar,
//!   and the records by name.
//! - `cache`, `loader`: the snapshot of a catalog, the rule of its
//!   freshness, and the decision between cache and fetch.
//! - `elements`: from a record to parsed orbital elements.
//! - `time`, `tracking`: instants, the simulation clock, the validity horizon
//!   and the position that an object keeps between updates.
//! - `frame`, `visibility`: the map from the inertial frame to the scene, and
//!   the decision whether the central body hides an object.
//!
//! Files, the network and floating-point numerics are the caller's part: the
//! library takes and gives integers, strings and its own types.

pub mod cache;
pub mod catalog;
pub mod elements;
pub mod frame;
pub mod loader;
pub mod parser;
pub mod text;
pub mod time;
pub mod tracking;
pub mod visibility;
