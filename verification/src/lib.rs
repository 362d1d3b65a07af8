//! WiFi beacon analysis: 802.11 information-element parsing, capability
//! detection, vendor lookup and scanner bookkeeping.

pub mod analysis;
pub mod laws;
pub mod parser;
pub mod plugins;
pub mod registry;
pub mod report;
pub mod roaming;
pub mod scanner;
pub mod scanner_core;
pub mod text;
pub mod textscan;
pub mod types;
pub mod vendor;
