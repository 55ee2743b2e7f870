//! The decisions of the Direct3D runtimes that do not need a device: the formats to fall
//! back on, the descriptor heap slots, the passes of a frame, and the frame history.

pub mod d3d11;
pub mod d3d12;
pub mod formats;
pub mod frame;
pub mod heap;
pub mod bindings;
