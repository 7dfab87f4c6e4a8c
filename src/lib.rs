//! Safe, verified ownership model for the objects of a multi-level compiler IR.
//!
//! Operations, blocks and regions live in a [`Context`], an arena that owns the
//! whole graph. Owning wrappers ([`ir::Operation`], [`ir::Block`],
//! [`ir::Region`]) stand for objects that are not attached anywhere yet;
//! attaching one consumes the wrapper and hands back a copyable reference.
//! Every navigation and mutation method states, over the graph model
//! [`context::Graph`], what it reads and what it changes.
//!
//! No object is freed before its context, so a reference never dangles:
//! detaching a block hands its ownership back to the caller, and references
//! that were taken to it or to its operations still name the same objects.

pub mod context;
pub mod copy;
pub mod dialect;
pub mod error;
pub mod ir;
pub mod laws;
pub mod names;
pub mod print;
pub mod utility;
pub mod verify;

pub use context::Context;
pub use error::Error;
