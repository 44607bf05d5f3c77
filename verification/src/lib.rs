//! A verified core for maintaining a package manifest: the in-memory model
//! with its merge engine, the script-syntax codec (parse and serialize),
//! the content-digest engine, and the repository inspector.

pub mod codec;
pub mod digest;
pub mod error;
pub mod generate;
pub mod gitrepo;
pub mod luaval;
pub mod parse;
pub mod manifest;
pub mod roundtrip;
pub mod schema;
