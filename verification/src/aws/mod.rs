//! What the dashboard knows of the cloud platform without calling it: how
//! its errors read, and which profiles and regions there are to choose from.

pub mod client;
pub mod profiles;
