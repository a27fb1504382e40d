//! The logic of an immediate-mode 2D renderer: areas, batches, frame planning,
//! pipeline keys, shader text, window bookkeeping and input state.
//!
//! Floating point values are carried through as bit patterns
//! ([`vertex::F32Bits`]): this crate moves, compares and lays them out, and
//! leaves arithmetic on them to its callers.

pub mod area;
pub mod area_laws;
pub mod batch;
pub mod bindings;
pub mod buffers;
pub mod callbacks;
pub mod color;
pub mod colors;
pub mod decimal;
pub mod deferred;
pub mod device_laws;
pub mod dpi;
pub mod draw_laws;
pub mod error;
pub mod flatten;
pub mod frame;
pub mod frame_laws;
pub mod fxmap;
pub mod geometry;
pub mod glyph;
pub mod gpu;
pub mod host;
pub mod icon;
pub mod inherit;
pub mod input;
pub mod merge_laws;
pub mod order_laws;
pub mod pass;
pub mod pass_laws;
pub mod pipeline;
pub mod pipeline_plan;
pub mod renderer;
pub mod resources;
pub mod shader;
pub mod shape_laws;
pub mod source_laws;
pub mod stencil;
pub mod stencil_laws;
pub mod supervisor;
pub mod text;
pub mod text_laws;
pub mod text_renderer;
pub mod transform_table;
pub mod tree_laws;
pub mod upload;
pub mod vertex;
pub mod window_laws;
pub mod windows;
