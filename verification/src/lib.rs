//! The truth layer of a small settlement game: three single-writer
//! owners, a validating boundary, canonical receipts, deterministic world
//! hashes, and bounded oracles that audit a run.

pub mod text;
pub mod vocab;
pub mod fnv;
pub mod keyed;
pub mod character;
pub mod social;
pub mod sums;
pub mod economy;
pub mod world;
pub mod grammar;
pub mod command;
pub mod receipt;
pub mod boundary;
pub mod laws;
pub mod shadow;
pub mod oracles;
pub mod seam;
pub mod winter;
pub mod host;
pub mod rs01;
pub mod anticipation;
pub mod trial;
pub mod shapes;
pub mod audit;
pub mod agreement;
pub mod canon;
