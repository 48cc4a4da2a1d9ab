//! A reader for the BSDF binary format: a tagged, length-prefixed encoding
//! of a tree of typed values.
use vstd::prelude::*;

pub mod codec;
pub mod consts;
pub mod error;
pub mod format;
pub mod item;
pub mod laws;
pub mod parser;

pub use error::{Error, InvalidExtension};
pub use item::{Item, ItemMap, Value};
pub use codec::Codecs;
pub use parser::Parser;

