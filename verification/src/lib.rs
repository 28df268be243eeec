//! Layout of flowchart blocks in vertical chains, and their rendering as SVG.
//!
//! A [`config::Config`] fixes the grid, the font and the minimum block size.
//! A [`block::BlockBuilder`] sizes a block to its text and snaps it to the
//! grid; a [`basic_block::BasicBlock`] stacks blocks on one vertical axis; and
//! [`svg::Svg`] writes the shapes of a chain as markup.

pub mod basic_block;
pub mod block;
pub mod config;
pub mod svg;
pub mod text;
