# phantomat

Verified core of Phantomat, a GPU-oriented toolkit for linked 2D/3D data
visualization (scatter plots and heatmaps rendered with wgpu, with Python and
browser bindings).

`src/` is the library, verified with Verus. It holds the integer logic:

- `histogram`: clamping of raw bin positions and accumulation of 1D, 2D and
  weighted 2D histograms (counts per bin, saturating fixed-point weights),
  the largest cell of a grid, and the laws that the counts add up to the
  number of samples inside the data range;
- `layout`: row-major grids and strided readbacks (flattening, splitting,
  unpadding) with the round-trip laws between flat buffers and grids;
- `renderer`: target-size validation, readback layout, PNG export of a
  readback (through the `image` crate) and the per-layer draw decision;
- `compute`: argument handling and readback of the GPU histogram;
- `capacity`: power-of-two growth of GPU buffers;
- `scatter`: scatter point data as IEEE-754 bit patterns, its construction
  from rows, columns, column blocks and interleaved arrays, the 48-byte
  instance records, and layer stacks in which only the first layer clears;
- `heatmap`: heatmap point records, the CPU grid and dispatch sizes;
- `arrow_schema`: validation of Arrow record batches for scatter layers;
- `bindings`: shape checks of the Python entry point and backend preferences
  of the browser entry point;
- `scale`: the error type and parameter-check order of logarithmic scales.

`app/` is ordinary Rust around the library: the floating-point scales,
colors and binning, the wgpu renderer, layers and compute pass, the PyO3
module, the wasm-bindgen bindings and the `xtask` command. The WGSL shader
sources are not part of this tree: the renderer reads them at run time from
a `shaders/` directory beside the manifest (or from `PHANTOMAT_SHADER_DIR`)
and panics, naming the file, when one is missing.
