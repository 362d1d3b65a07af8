//! Pure functions that turn raw 802.11 information elements into
//! structured descriptions.

pub mod beacon;
pub mod capabilities;
pub mod details;
pub mod elements;
pub mod names;
pub mod phy;
pub mod phy_ext;
pub mod rsn;
pub mod width;
