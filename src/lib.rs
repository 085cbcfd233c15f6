//! Reader for the IP reputation flat-file database.
//!
//! The file holds a header, a block of column descriptors, a binary prefix
//! tree keyed by the bits of an address, fixed-width leaf records and a pool of
//! length-prefixed strings. Two readers answer lookups over it: a resident one
//! that holds the whole file in memory, and a streaming one that reads the
//! bytes it needs through a function that its caller supplies. Both are
//! verified against one statement of what a lookup returns.
pub mod address;
pub mod binary_option;
pub mod column;
pub mod error;
pub mod file_reader;
pub mod layout;
pub mod memory_reader;
pub mod parse;
pub mod schema;
pub mod tree;
pub mod utility;
pub mod variable_length_int;

pub use address::Address;
pub use error::Error;
pub use file_reader::record::{Record, Strictness};
pub use file_reader::FileReader;
pub use memory_reader::MemoryReader;
