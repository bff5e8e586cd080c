//! A modal, terminal-resident text editing engine: a row store with tab-aware
//! rendering, a scrollable viewport, a two-mode (normal/insert) key state
//! machine with vim-style motions, and the line-based file format used to
//! load and save buffers.

pub mod editor;
pub mod keyboard;
pub mod lines;
pub mod row;
pub mod terminal;
mod text;
