//! A software rasterizer's integer core: packed pixels, an IEEE-754 depth
//! order on bit patterns, a colour and depth framebuffer, textures, meshes and
//! a front-to-back render queue.
pub mod color;
pub mod depth;
pub mod framebuffer;
pub mod texture;
pub mod mesh;
pub mod renderer;
