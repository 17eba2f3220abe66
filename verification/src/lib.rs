//! Verified core of a toy-audio cartridge manager.
//!
//! The library covers the engine behind the tool: the reversible
//! tag-address obfuscation, the fixed-size container header codec,
//! the content scanner, the transcode pipeline's decisions, and the
//! integer resampler.  Filesystem, network and user-interface work
//! stays outside, in an unverified shell that hands plain values in
//! and out.

pub mod fault;
pub mod header;
pub mod pipeline;
pub mod resampler;
pub mod scanner;
pub mod tagcodec;
pub mod tonielist;
