//! Normalization and join layer for a speedrun leaderboard service.
//!
//! The library turns the loosely shaped payloads of the service's search,
//! category and record endpoints into a small set of flat, well-typed
//! records: it parses run durations, resolves player references, selects a
//! preferred video link, builds a category catalog, and joins records with
//! that catalog into ready-to-render leaderboards. Fetching, argument
//! handling and rendering live outside the library.

pub mod assemble;
pub mod catalog;
pub mod duration;
pub mod error;
pub mod game;
pub mod player;
pub mod run;
pub mod search;
pub mod strutil;
pub mod video;
