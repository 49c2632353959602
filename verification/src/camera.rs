//! Camera marker types; their matrices are floating-point work done by the
//! renderer.
use vstd::prelude::*;

verus! {

/// A 2d camera used as a 3d camera.
pub struct Camera2dAs3d<T>(pub T);

/// 2d camera used for rendering in pixel space.
pub struct PixelPerfectCamera;

/// A vertex with no attributes, for drawing without instancing.
pub struct EmptyVertex;

/// A uniform or attribute of a linked shader program.
#[derive(Debug)]
pub struct ActiveInfo {
    pub name: String,
    pub size: i32,
    pub typ: u32,
}

} // verus!
