//! The discrete core of a ray tracer: everything the renderer decides without
//! real arithmetic, with machine-checked contracts.
//!
//! A renderer casts rays into a scene, finds where each meets the
//! primitives, and shades the nearest hit, following reflected and refracted
//! rays to a bounded depth. The geometry and the shading are real
//! arithmetic, which a program does in floating point. Around that
//! arithmetic stand decisions: in which order the intersections of a ray
//! come, which of them is the hit, which media meet at it, which crossings
//! of a surface belong to a solid, how deep a ray may still recurse, where a
//! pixel is stored and how an image is written out. Those decisions are this
//! library.
//!
//! Distances along a ray, and every other real quantity that the renderer
//! only compares, enter this crate as *order keys*: signed 64-bit integers
//! whose order and sign are those of the quantity they stand for (see
//! [`key`]). Values that are only moved around (the entries of a matrix, the
//! pixels of an image) may be of any type.

pub mod camera;
pub mod canvas;
pub mod color;
pub mod encoding;
pub mod intersections;
pub mod key;
pub mod material;
pub mod matrix;
pub mod ppm;
pub mod refraction;
pub mod scene;
pub mod shapes;
pub mod world;
