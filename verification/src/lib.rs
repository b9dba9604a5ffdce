//! Provider catalog, name lookup, model-size and hardware-report parsing for
//! estimating what it costs to run a large language model.

pub mod provider;
pub mod text;
pub mod number;
pub mod params;
pub mod hardware;
pub mod select;
pub mod cli;
pub mod tui;
