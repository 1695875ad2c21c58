//! Safe marshaling between owned 2D geometry and the flat, pointer-and-count
//! records exchanged with a native Euclidean Steiner minimal tree routine.
//!
//! Coordinates and tree lengths are carried as IEEE-754 binary64 bit patterns
//! (`u64`), so that every copy made across the boundary is exact and can be
//! stated bit for bit.

pub mod geometry;
pub mod marshal;

pub use geometry::{Edge, Point};
pub use marshal::{
    edge_is_valid, pack_points, pack_points_fixed, readable_len, C_ESMT, ESMT, MarshalError,
};
