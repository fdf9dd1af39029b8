//! Text-mode pyramids: the command-line options that configure one, and the
//! text that draws it.

pub mod abort;
pub mod ascii;
pub mod config;
pub mod cursor;
pub mod number;
pub mod option;
pub mod parse;
pub mod program;
pub mod reading;
pub mod render;
pub mod text;

pub use abort::Abort;
pub use config::{PyramidInfo, MAX_SIZE};
pub use cursor::ArgCursor;
pub use option::SoapOption;
pub use parse::{apply_option, parse_command_arguments, Parsed, Step};
pub use program::run;
pub use render::pyramid;
