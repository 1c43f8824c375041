//! Switching a laptop's dedicated GPU between its drivers.
pub mod conduct;
pub mod digits;
pub mod gpu;
pub mod laws;
pub mod order;
pub mod outcome;
pub mod pci;
pub mod proto;
pub mod replay;
pub mod report;
pub mod switcher;
pub mod system;
pub mod text;
