//! Verified core of MdSight, a Markdown previewer linked to Neovim.
mod text;
pub mod state;
pub mod args;
pub mod history;
pub mod socket;
pub mod render;
pub mod image;
pub mod standalone;
pub mod nvim;
