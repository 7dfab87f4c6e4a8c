//! IR objects: owning wrappers, references and values.

pub mod block;
pub mod builder;
pub mod module;
pub mod operation;
pub mod region;
pub mod value;

pub use self::block::{Block, BlockRef};
pub use self::module::Module;
pub use self::operation::{Operation, OperationRef};
pub use self::region::{Region, RegionRef};
pub use self::value::{Attribute, Identifier, Location, Type, Value};
