//! Recovery of missing launcher-shortcut icons: parsing of shortcut records,
//! extraction of launcher identifiers and icon tokens, and the decisions of
//! the fetch and unpack stages.

pub mod cli;
pub mod text;
pub mod extractors;
pub mod record;
pub mod fetch;
pub mod resolutions;
pub mod unpack;
