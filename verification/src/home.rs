//! The home surface: its pages, its settings and what its buttons do.
pub mod events;
pub mod image;
pub mod pages;
pub mod pixels;
pub mod settings;
pub mod store;
pub mod thumbnails;
pub mod ui;
pub mod view;
