//! Triangles.
//!
//! An element owns copies of its three vertices.  Its numeric payload (the
//! local stiffness, mass and emission matrices and the per-phase forcing
//! vectors) is floating point and is computed by the application; what the
//! assembly logic needs of a triangle, and what is verified here, is its
//! identity: three points with their global ids, each position
//! three-dimensional, and the local ids one, two, three.

use vstd::prelude::*;

use crate::point::{point_eq, Point};
use crate::FemError;

verus! {

/// A triangle of the mesh, reduced to what indexing reads.
#[derive(Debug)]
pub struct Element {
    pub p1: Point,
    pub p2: Point,
    pub p3: Point,
    pub two_side_radiation: bool,
}

impl Element {
    /// Builds a triangle from its three vertices, renumbering them one, two,
    /// three.  Rejects a vertex whose position is not three-dimensional.
    pub fn new(p1: Point, p2: Point, p3: Point, two_side_radiation: bool) -> (r: Result<
        Element,
        FemError,
    >)
        ensures
            r is Ok <==> p1.position@.len() == 3 && p2.position@.len() == 3 && p3.position@.len()
                == 3,
            r is Err ==> r == Err::<Element, FemError>(FemError::PointDimension),
            r is Ok ==> {
                let e = r->Ok_0;
                &&& point_eq(e.p1, Point { local_id: 1, ..p1 })
                &&& point_eq(e.p2, Point { local_id: 2, ..p2 })
                &&& point_eq(e.p3, Point { local_id: 3, ..p3 })
                &&& e.two_side_radiation == two_side_radiation
            },
    {
        let mut p1 = p1;
        let mut p2 = p2;
        let mut p3 = p3;
        if let Err(e) = Self::check_point_length(&p1) {
            return Err(e);
        }
        if let Err(e) = Self::check_point_length(&p2) {
            return Err(e);
        }
        if let Err(e) = Self::check_point_length(&p3) {
            return Err(e);
        }
        p1.set_local_id(1);
        p2.set_local_id(2);
        p3.set_local_id(3);
        Ok(Element { p1, p2, p3, two_side_radiation })
    }

    /// Accepts exactly the three-dimensional positions.
    pub fn check_point_length(point: &Point) -> (r: Result<(), FemError>)
        ensures
            r is Ok <==> point.position@.len() == 3,
            r is Err ==> r == Err::<(), FemError>(FemError::PointDimension),
    {
        if point.position.len() != 3 {
            Err(FemError::PointDimension)
        } else {
            Ok(())
        }
    }
}

} // verus!
