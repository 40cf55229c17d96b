//! Line-addressed annotation of source files: window selection, line
//! numbering, decoding of structured annotation records, and the
//! merge-insertion pass that interleaves rendered comments into a document;
//! around it, the data and decisions of the `yap` command-line tool.

pub mod text;
pub mod err;
pub mod json;
pub mod window;
pub mod decode;
pub mod annotate;
pub mod merge_proofs;
pub mod openai;
pub mod config;
pub mod constants;
pub mod db;
pub mod chat;
pub mod chatlog;
pub mod term;
