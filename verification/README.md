# cpu_renderer

A CPU software rasterizer. The library (`src/`, verified with Verus) holds the
integer logic of the renderer:

- `color`: packing 8-bit channels into `0x00RRGGBB` pixels.
- `depth`: the IEEE 754 `<` on binary32 values, decided on their bit
  patterns, with its order laws.
- `framebuffer`: the colour and depth buffers, parallel clearing (rayon),
  pixel access and the depth test.
- `texture`: textures over any texel type, checkerboards and clamped lookup.
- `mesh`: vertices, quads, the cube and the triangle list of an indexed OBJ
  model.
- `renderer`: the render queue and its stable front-to-back order.

`app/` is the program around it: the window (minifb), file loading (image,
tobj), and the floating-point stages (glam): shaders, culling, the viewport
transform and edge rasterization. Depths and distances cross into the library
as `f32::to_bits` patterns.
