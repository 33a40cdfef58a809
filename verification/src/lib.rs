//! LDraw models: the files of the LDraw.org standard and the parsing of
//! their lines.
pub mod file;
pub mod load;
pub mod loader;
pub mod multi_file;
pub mod text;
pub mod types;
