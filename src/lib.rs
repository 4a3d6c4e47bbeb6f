//! Decoding of the fixed-column lines of a macromolecular structure file
//! into typed records.
pub mod date;
pub mod entry;
pub mod error;
pub mod number;
pub mod parsing;
pub mod structure;
pub mod text;

pub use date::Date;
pub use entry::Entry;
pub use error::{IntError, ParseError};
pub use parsing::{get_charge, get_int, get_opt_char, get_opt_string, get_save_slice, get_string};
pub use structure::{AminoAcid, Atom, Chain, Model, Residue, Structure};
