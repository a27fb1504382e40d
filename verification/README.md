# vireo

The logic of a 2D renderer for the GPU, written in Verus. A frame is a list of
batches: shapes, texts and children, with clips, areas, transforms, textures and
materials. The library works out what a frame sends to the device and proves
what that does; the code around it talks to the device, to windows and to
threads.

## Layout

- `src/` is the library.
  - Areas and the stencil: `area`, `stencil`, and their laws.
  - Batches and frames: `batch`, `flatten`, `frame`, `pass`, `renderer`,
    `upload`, and their laws. `order_laws` says in which order a frame draws and
    what each draw is cut to; `stencil_laws` says at which pixels it is seen.
  - Pipelines and shaders: `pipeline`, `pipeline_plan`, `gpu`, `bindings`,
    `shader`.
  - Texts: `glyph`, `text_renderer`.
  - Windows: `windows`, `host`, `supervisor`, `callbacks`, `input`, `dpi`,
    `icon`.
- `app/` is ordinary Rust: arithmetic on floats, `wgpu`, `winit`, fonts, threads.
- `tests/` runs the library on concrete values.

## Floats

A float is carried through the library as its bit pattern. The library moves
floats, compares them for equality and lays them out; where a float has to be
computed, the caller hands in the result or a function. Only the way from bytes to
the parts of a colour and back is worked out here, on the bit patterns.
