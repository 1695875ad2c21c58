use vstd::prelude::*;

verus! {

/// A 2D point whose coordinates are IEEE-754 binary64 values, stored as
/// their bit patterns (`f64::to_bits`).
#[derive(Clone, Copy, Debug, PartialEq, Eq, Structural)]
pub struct Point {
    pub x: u64,
    pub y: u64,
}

impl Point {
    /// Builds a point from the bit patterns of its two coordinates.
    pub fn new(x: u64, y: u64) -> (r: Self)
        ensures
            r.x == x,
            r.y == y,
    {
        Point { x, y }
    }
}

/// An unordered pair of node indices. Terminals come first, in input order,
/// followed by the Steiner points in the order the native routine reported
/// them. Range and distinctness are checked where the node count is known.
#[derive(Clone, Copy, Debug, PartialEq, Eq, Structural)]
pub struct Edge {
    pub a: i32,
    pub b: i32,
}

impl Edge {
    /// Builds an edge from two node indices, without validating them.
    pub fn new(a: i32, b: i32) -> (r: Self)
        ensures
            r.a == a,
            r.b == b,
    {
        Edge { a, b }
    }

    /// Both endpoints lie in `[0, node_count)` and differ.
    pub open spec fn valid_for(&self, node_count: int) -> bool {
        &&& 0 <= self.a < node_count
        &&& 0 <= self.b < node_count
        &&& self.a != self.b
    }
}

} // verus!
