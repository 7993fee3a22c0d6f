//! Core of a caching proxy in front of a step-by-step math solver: the token
//! pool supervisor, the request orchestrator, the response cache, and the
//! text handling they rely on.

pub mod cache;
pub mod colour;
pub mod cookie;
pub mod entry;
pub mod error;
pub mod glyphs;
pub mod image;
pub mod orchestrator;
pub mod plan;
pub mod pool;
pub mod supervisor;
pub mod symbolab;
pub mod text;
