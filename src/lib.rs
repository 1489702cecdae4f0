//! A layered frame-buffer compositor with verified drawing primitives,
//! bitmap decoders and the small pieces of kernel logic around them.

pub mod pixel;
pub mod layer;
pub mod screen;
pub mod bmp;
pub mod glyph;
pub mod allocator;
pub mod video;
pub mod pci;
pub mod vga;
