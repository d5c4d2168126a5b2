//! The resource model and navigation engine of a terminal dashboard for
//! cloud resources.
//!
//! - [`resource`] holds the catalog of resource descriptors, the value
//!   extractor and the preparation of fetches.
//! - [`app`] is the navigation controller: the view state and every
//!   operation on it.
//! - [`event`] decides what a key press does.
//! - [`laws`] states what holds of the controller.
//! - [`json`] and [`text`] are the records and the text primitives that the
//!   rest is built on.
//! - [`aws`], [`config`] and [`ui`] hold what the dashboard knows without
//!   asking anyone: error messages, regions and profiles, preferences, and
//!   the parts of the display that are decided without drawing.
//!
//! The library performs no input or output. Operations that need remote
//! work hand the caller a request and take the outcome back.

pub mod app;
pub mod aws;
pub mod config;
pub mod event;
pub mod json;
pub mod laws;
pub mod resource;
pub mod text;
pub mod ui;
