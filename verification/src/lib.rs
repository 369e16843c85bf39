//! Phantomat: verified core of a GPU-oriented visualization toolkit.
//!
//! The library holds the integer logic of the toolkit: histogram binning and
//! accumulation, row-major grid layouts shared by the CPU and the GPU paths,
//! readback unpadding and PNG export, buffer-capacity growth, scatter-point
//! layouts for instanced drawing, layer compositing, and the validation rules
//! of the public entry points. Floating-point values are carried as their
//! IEEE-754 bit patterns.

use vstd::prelude::*;

pub mod arrow_schema;
pub mod bindings;
pub mod capacity;
pub mod compute;
pub mod counting;
pub mod heatmap;
pub mod histogram;
pub mod layout;
pub mod renderer;
pub mod scale;
pub mod scatter;

verus! {

/// Host-side marker: the browser bindings are only built for the
/// `wasm32-unknown-unknown` target.
pub fn phantomat_wasm_requires_wasm32_target() {
}

} // verus!
