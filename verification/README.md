# latex_render

A verified library for rendering LaTeX mathematics in a terminal client: a
streaming Markdown aware segmenter, the request and result contracts of a local
MathJax worker, its wire protocol and supervision policy, a bounded render cache
with stable keys, a fail closed SVG allowlist, raster bounds, the daemon's message
protocol, and the argument grammar of the `latex-render` command.

`src/` is the library; every function in it is verified by Verus against its
contract, and the calls it makes into outside crates (quick-xml, serde_json,
svgtypes, sha2, base64, tiny-skia) go through small trusted wrappers whose
contracts are stated beside them. `app/` is the program around it: process and
file I/O, the Tokio runtime, JSON serialization of requests and floating point
rasterization. `tests/` exercises the library on concrete values.
