//! A tick-driven 2D simulation core: a component store, a broad-phase
//! spatial index, the bridge that joins the two, and the command and
//! simulation layers that drive them.

pub mod bridge;
pub mod command;
pub mod component;
pub mod error;
pub mod game;
pub mod geometry;
pub mod groups;
pub mod spatial;
pub mod step;
pub mod store;
pub mod vector;
