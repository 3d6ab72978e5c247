//! A version manager for the Haskell toolchain: a catalog of installable
//! releases scraped from a remote index, an installation state machine, and a
//! registry of installed versions with exactly one active version per kind.

pub mod error;
pub mod text;
pub mod target;
pub mod catalog;
pub mod checksum;
pub mod registry;
pub mod pipeline;
pub mod g;
pub mod host;
