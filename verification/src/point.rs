//! Mesh vertices.
//!
//! The indexing logic never computes with a coordinate or a temperature, it
//! only moves them between triangles and the global point array.  Both are
//! therefore carried as opaque 64-bit patterns; the application converts its
//! scalar values to and from these patterns at the boundary.

use vstd::prelude::*;

verus! {

/// A mesh vertex: an opaque position (one pattern per coordinate), an opaque
/// initial temperature, the mesh-wide id, and the id within its triangle.
#[derive(Debug)]
pub struct Point {
    pub position: Vec<u64>,
    pub temperature: u64,
    pub global_id: u32,
    pub local_id: u32,
}

/// Whether two points carry the same data.  Positions are compared by their
/// sequences of patterns.
pub open spec fn point_eq(a: Point, b: Point) -> bool {
    &&& a.position@ == b.position@
    &&& a.temperature == b.temperature
    &&& a.global_id == b.global_id
    &&& a.local_id == b.local_id
}

/// Copies a position.
fn clone_bits(v: &Vec<u64>) -> (r: Vec<u64>)
    ensures
        r@ == v@,
{
    let mut r: Vec<u64> = Vec::new();
    let mut i: usize = 0;
    while i < v.len()
        invariant
            i <= v@.len(),
            r@ == v@.subrange(0, i as int),
        decreases v@.len() - i,
    {
        r.push(v[i]);
        proof {
            assert(r@ =~= v@.subrange(0, i + 1));
        }
        i += 1;
    }
    proof {
        assert(r@ =~= v@);
    }
    r
}

impl Point {
    pub fn new(position: Vec<u64>, temperature: u64, global_id: u32, local_id: u32) -> (r: Point)
        ensures
            r.position@ == position@,
            r.temperature == temperature,
            r.global_id == global_id,
            r.local_id == local_id,
    {
        Point { position, temperature, global_id, local_id }
    }

    /// Renumbers the point within its triangle.
    pub fn set_local_id(&mut self, local_id: u32)
        ensures
            final(self).position@ == old(self).position@,
            final(self).temperature == old(self).temperature,
            final(self).global_id == old(self).global_id,
            final(self).local_id == local_id,
    {
        self.local_id = local_id;
    }
}

impl Clone for Point {
    fn clone(&self) -> (r: Point)
        ensures
            point_eq(r, *self),
    {
        Point {
            position: clone_bits(&self.position),
            temperature: self.temperature,
            global_id: self.global_id,
            local_id: self.local_id,
        }
    }
}

impl Default for Point {
    /// The filler the global point array starts from: no coordinates, zero
    /// pattern, id zero.
    fn default() -> (r: Point)
        ensures
            r.position@ == Seq::<u64>::empty(),
            r.temperature == 0,
            r.global_id == 0,
            r.local_id == 0,
    {
        Point { position: Vec::new(), temperature: 0, global_id: 0, local_id: 0 }
    }
}

} // verus!
