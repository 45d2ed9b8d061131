//! A minimal widget-composition layer for character-grid user interfaces.
//!
//! Widgets are assembled into a tree that can be measured, rendered into a
//! rectangular region of a drawing surface, and handed input events. The
//! crate provides the widget capability traits and one concrete container,
//! a vertical stacking layout.

pub mod event;
pub mod surface;
pub mod vertical_layout;
pub mod widget;
