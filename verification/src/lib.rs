//! Parsing and rebuilding of `rustc` command lines, as a `RUSTC_WRAPPER`
//! sees them: `<wrapper> - <rustc> <args...>`.

pub mod error;
pub mod info;
pub mod letters;
pub mod meanings;
pub mod parsed;
pub mod parser;
pub mod properties;
pub mod reading;
pub mod text;

pub use error::ParseError;
pub use info::{
    Emit, Extern, Info, LibrarySearchPath, LibrarySearchPathKind, LinkLib, LinkLibKind, LL, LLK,
    LSP, LSPK,
};
pub use parser::parse;
