//! A binary codec for a simplified Bitcoin transaction format.
//!
//! Every entity has an encoding, a function from its value to a byte
//! sequence, and a parser, a partial function from a byte sequence to a value
//! and the number of bytes it occupies. The executable `to_bytes` and
//! `from_bytes` of each type are proved to compute exactly these, and the
//! parser is proved to invert the encoding.

pub mod error;
pub mod wire;
pub mod compact_size;
pub mod hextext;
pub mod txid;
pub mod outpoint;
pub mod script;
pub mod input;
pub mod transaction;
pub mod structured;
pub mod render;

pub use crate::compact_size::CompactSize;
pub use crate::error::BitcoinError;
pub use crate::input::TransactionInput;
pub use crate::outpoint::OutPoint;
pub use crate::script::Script;
pub use crate::structured::{Field, Value};
pub use crate::transaction::BitcoinTransaction;
pub use crate::txid::Txid;
