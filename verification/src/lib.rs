//! The core of a path tracer: the scene graph, the bounding-volume
//! hierarchy, the selection of the nearest hit, scene documents and the
//! pixel stream.
//!
//! Numbers are binary64 values held by their bit patterns ([`scalar`]). The
//! library compares, orders, clamps, negates and truncates them exactly, and
//! leaves all rounding arithmetic to its caller: the sums and roots behind a
//! hit, a box or a colour come in as finished values or through probes,
//! which are functions that the caller hands to a traversal. What the
//! library decides with these values is stated and proved:
//!
//! - [`hittable`] and [`bvh`] traverse lists and hierarchies of shapes, and
//!   [`nearest`] shows that every traversal finds a nearest hit, so that a
//!   hierarchy and a scan of the same shapes agree;
//! - [`bounds`] shows that the boxes of groups hold what is below them;
//! - [`scene_loader`] writes scenes into documents and loads them, and
//!   [`round_trip`] shows that a scene comes back as it was written;
//! - [`color`] and [`camera`] turn colours into the lines of the pixel
//!   stream.
pub mod aabb;
pub mod bounds;
pub mod bvh;
pub mod camera;
pub mod color;
pub mod hittable;
pub mod image;
pub mod interval;
pub mod job;
pub mod material;
pub mod nearest;
pub mod perlin;
pub mod progress;
pub mod quad;
pub mod round_trip;
pub mod ray;
pub mod scalar;
pub mod scene_loader;
pub mod scene_tree;
pub mod sphere;
pub mod texture;
pub mod vec;
