//! Verified core of a terminal renderer for a small solar-system scene:
//! pixel colours, the frame buffer, the screen-size bookkeeping, the
//! triangle topology of a latitude/longitude sphere and the orbit clock.

pub mod graphics;
pub mod physics;
