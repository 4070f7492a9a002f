//! The pages of the home surface.
pub mod manager;
pub mod settings;
pub mod store;
pub mod wallpapers;
