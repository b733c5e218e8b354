//! A small retained-mode widget toolkit for character-grid terminals.
//!
//! Widgets live in an arena ([`store::WidgetStore`]); each frame the labels are
//! sized from their text, containers place their children and grow around them
//! ([`layout`]), clicks are routed to the widget under the pointer, and the
//! painter receives a list of draw commands.

pub mod color;
pub mod geometry;
pub mod ui;
pub mod store;
pub mod layout;
pub mod frame;
