//! Scanner output: captured frames, `iw` text and scanner selection.

pub mod airport;
pub mod corewlan;
pub mod frames;
pub mod iw;
pub mod libpcap;
pub mod select;
pub mod wlanapi;
