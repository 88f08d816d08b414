# satellite_viewer

A viewer for Sentinel-2 scenes on a slippy map, with a loop of NEXRAD radar
composites on top.

- `src/` is the library, verified with Verus: geographic boxes, the tile
  pyramid and its cache, the radar frame store and its playback, the two fetch
  state machines, URLs and messages, and the state of the panels.
- `app/` is the program around it: the window, the map widget, the GPU, HTTP
  and the thread pool, and everything that computes with floating point.
- `tests/` runs the library with the crates it calls.

## How the library is written

Floating-point numbers pass through the library as IEEE 754 bit patterns
(`binary`). Their order, and rounding to a whole zoom level, are decided on the
bits and stated over exact values.

Time comes in two kinds: instants in UTC (`clock::Timestamp`), computed by
`chrono`, and nanoseconds on a clock that does not go back, handed in by the
caller.

A fetch is a value with a `step` function. The caller performs what a step asks
for (a request, a pause) and hands the outcome back; what is sent to the window
in between is part of the contract.

Textures are a type parameter. Whoever owns the GPU passes in a closure that
turns a named picture into a texture.

Calls into other crates stand in small trusted functions, each next to the code
that uses it: `clock` (chrono), `data` (image), `http` (reqwest's status codes)
and `renderer::map_pipeline` (bytemuck). `text` states what `String::push` does.
