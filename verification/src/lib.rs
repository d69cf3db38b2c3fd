//! A decoding engine for processor instruction traces.
//!
//! The engine works on a trace that the packet layer has already cut into
//! packets, and offers two decoders over it: [`qry::QueryDecoder`], which
//! answers one branch decision at a time, and [`block::decoder::BlockDecoder`],
//! which follows the traced code through a memory image block by block.
pub mod asid;
pub mod block;
pub mod config;
pub mod engine;
pub mod error;
pub mod event;
pub mod flags;
pub mod image;
pub mod laws;
pub mod native;
pub mod packet;
pub mod qry;
pub mod timing;
