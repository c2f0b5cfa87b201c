//! Assembly indexing.
//!
//! Global matrices and vectors are assembled by scattering per-triangle
//! contributions to positions named by global point ids.  The value
//! arithmetic is floating point and happens in the application; the index
//! structure — how many points there are, which point lands where in the
//! global array, and which triangles meet at which node — is computed and
//! verified here.

use vstd::prelude::*;

use crate::element::Element;
use crate::point::{point_eq, Point};

verus! {

/// The `k`-th vertex of a triangle, `k` in `{0, 1, 2}`.
pub open spec fn elem_point(e: Element, k: int) -> Point {
    if k == 0 {
        e.p1
    } else if k == 1 {
        e.p2
    } else {
        e.p3
    }
}

/// The largest global id used by any vertex of any triangle (zero for an
/// empty mesh).
pub open spec fn max_global_id(elems: Seq<Element>) -> int
    decreases elems.len(),
{
    if elems.len() == 0 {
        0
    } else {
        let e = elems.last();
        let m = max_global_id(elems.drop_last());
        let a = vstd::math::max(e.p1.global_id as int, e.p2.global_id as int);
        let b = vstd::math::max(a, e.p3.global_id as int);
        vstd::math::max(m, b)
    }
}

/// The point that the scatter into the global array leaves at position `g`:
/// within one triangle the third vertex is written last, and later triangles
/// overwrite earlier ones.  `None` when no triangle touches `g`.
pub open spec fn scatter_value(elems: Seq<Element>, g: int) -> Option<Point>
    decreases elems.len(),
{
    if elems.len() == 0 {
        None
    } else {
        let e = elems.last();
        if e.p3.global_id == g {
            Some(e.p3)
        } else if e.p2.global_id == g {
            Some(e.p2)
        } else if e.p1.global_id == g {
            Some(e.p1)
        } else {
            scatter_value(elems.drop_last(), g)
        }
    }
}

/// Whether triangle `e` has a vertex with global id `g`.
pub open spec fn touches(e: Element, g: int) -> bool {
    e.p1.global_id == g || e.p2.global_id == g || e.p3.global_id == g
}

/// A mesh is consistent when any two vertex copies that share a global id
/// carry the same data.  The mesh readers produce such meshes: every copy of
/// a node is cloned from the same source point.
pub open spec fn consistent_points(elems: Seq<Element>) -> bool {
    forall|i: int, k: int, j: int, l: int|
        0 <= i < elems.len() && 0 <= k < 3 && 0 <= j < elems.len() && 0 <= l < 3 && (
        #[trigger] elem_point(elems[i], k)).global_id == (#[trigger] elem_point(
            elems[j],
            l,
        )).global_id ==> point_eq(elem_point(elems[i], k), elem_point(elems[j], l))
}

/// One more than the largest global id: the size of the global point array
/// and of every global matrix.
pub fn calculate_number_of_points(elements: &Vec<Element>) -> (r: usize)
    requires
        forall|i: int, k: int|
            0 <= i < elements@.len() && 0 <= k < 3 ==> (#[trigger] elem_point(
                elements@[i],
                k,
            )).global_id < u32::MAX,
    ensures
        r == max_global_id(elements@) + 1,
{
    let mut size: u32 = 0;
    let mut i: usize = 0;
    while i < elements.len()
        invariant
            i <= elements@.len(),
            size < u32::MAX,
            size == max_global_id(elements@.take(i as int)),
            forall|i2: int, k: int|
                0 <= i2 < elements@.len() && 0 <= k < 3 ==> (#[trigger] elem_point(
                    elements@[i2],
                    k,
                )).global_id < u32::MAX,
        decreases elements@.len() - i,
    {
        let e = &elements[i];
        proof {
            assert(elem_point(elements@[i as int], 0) == e.p1);
            assert(elem_point(elements@[i as int], 1) == e.p2);
            assert(elem_point(elements@[i as int], 2) == e.p3);
        }
        if e.p1.global_id > size {
            size = e.p1.global_id;
        }
        if e.p2.global_id > size {
            size = e.p2.global_id;
        }
        if e.p3.global_id > size {
            size = e.p3.global_id;
        }
        proof {
            assert(elements@.take(i + 1).drop_last() =~= elements@.take(i as int));
            assert(elements@.take(i + 1).last() == elements@[i as int]);
        }
        i += 1;
    }
    proof {
        assert(elements@.take(elements@.len() as int) =~= elements@);
    }
    (size as usize) + 1
}

/// Gathers the authoritative point array: position `g` receives the (last
/// written) vertex copy with global id `g`, and untouched positions keep the
/// filler.
pub fn construct_points_array(elements: &Vec<Element>, n_points: usize) -> (r: Vec<Point>)
    requires
        forall|i: int, k: int|
            0 <= i < elements@.len() && 0 <= k < 3 ==> (#[trigger] elem_point(
                elements@[i],
                k,
            )).global_id < n_points,
    ensures
        r@.len() == n_points,
        forall|g: int|
            0 <= g < n_points ==> match scatter_value(elements@, g) {
                Some(p) => point_eq(#[trigger] r@[g], p),
                None => r@[g].position@.len() == 0 && r@[g].temperature == 0 && r@[g].global_id
                    == 0 && r@[g].local_id == 0,
            },
{
    let mut points: Vec<Point> = Vec::new();
    let mut g: usize = 0;
    while g < n_points
        invariant
            g <= n_points,
            points@.len() == g,
            forall|h: int|
                0 <= h < g ==> (#[trigger] points@[h]).position@.len() == 0 && points@[h].temperature
                    == 0 && points@[h].global_id == 0 && points@[h].local_id == 0,
        decreases n_points - g,
    {
        let filler: Point = Default::default();
        points.push(filler);
        g += 1;
    }
    let mut i: usize = 0;
    while i < elements.len()
        invariant
            i <= elements@.len(),
            points@.len() == n_points,
            forall|i2: int, k: int|
                0 <= i2 < elements@.len() && 0 <= k < 3 ==> (#[trigger] elem_point(
                    elements@[i2],
                    k,
                )).global_id < n_points,
            forall|h: int|
                0 <= h < n_points ==> match scatter_value(elements@.take(i as int), h) {
                    Some(p) => point_eq(#[trigger] points@[h], p),
                    None => points@[h].position@.len() == 0 && points@[h].temperature == 0
                        && points@[h].global_id == 0 && points@[h].local_id == 0,
                },
        decreases elements@.len() - i,
    {
        let e = &elements[i];
        proof {
            assert(elem_point(elements@[i as int], 0) == e.p1);
            assert(elem_point(elements@[i as int], 1) == e.p2);
            assert(elem_point(elements@[i as int], 2) == e.p3);
        }
        let q1 = e.p1.clone();
        points.set(e.p1.global_id as usize, q1);
        let q2 = e.p2.clone();
        points.set(e.p2.global_id as usize, q2);
        let q3 = e.p3.clone();
        points.set(e.p3.global_id as usize, q3);
        proof {
            assert(elements@.take(i + 1).drop_last() =~= elements@.take(i as int));
            assert(elements@.take(i + 1).last() == elements@[i as int]);
        }
        i += 1;
    }
    proof {
        assert(elements@.take(elements@.len() as int) =~= elements@);
    }
    points
}

/// Mesh indexing law: in a consistent mesh, the point array entry at any
/// vertex's global id carries that vertex's own data — gathering node data
/// back by global id returns each triangle's own points.
pub proof fn lemma_mesh_indexing(elems: Seq<Element>, i: int, k: int)
    requires
        consistent_points(elems),
        0 <= i < elems.len(),
        0 <= k < 3,
    ensures
        match scatter_value(elems, elem_point(elems[i], k).global_id as int) {
            Some(p) => point_eq(p, elem_point(elems[i], k)),
            None => false,
        },
    decreases elems.len(),
{
    let g = elem_point(elems[i], k).global_id as int;
    let e = elems.last();
    let n = elems.len() as int;
    if e.p3.global_id == g {
        assert(elem_point(elems[n - 1], 2) == e.p3);
        assert(point_eq(e.p3, elem_point(elems[i], k)));
    } else if e.p2.global_id == g {
        assert(elem_point(elems[n - 1], 1) == e.p2);
        assert(point_eq(e.p2, elem_point(elems[i], k)));
    } else if e.p1.global_id == g {
        assert(elem_point(elems[n - 1], 0) == e.p1);
        assert(point_eq(e.p1, elem_point(elems[i], k)));
    } else {
        assert(i < n - 1) by {
            assert(elem_point(elems[n - 1], 0) == e.p1 && elem_point(elems[n - 1], 1) == e.p2
                && elem_point(elems[n - 1], 2) == e.p3);
        }
        let shorter = elems.drop_last();
        assert(consistent_points(shorter)) by {
            assert forall|i2: int, k2: int, j2: int, l2: int|
                0 <= i2 < shorter.len() && 0 <= k2 < 3 && 0 <= j2 < shorter.len() && 0 <= l2 < 3
                    && (#[trigger] elem_point(shorter[i2], k2)).global_id == (
                #[trigger] elem_point(shorter[j2], l2)).global_id implies point_eq(
                elem_point(shorter[i2], k2),
                elem_point(shorter[j2], l2),
            ) by {
                assert(shorter[i2] == elems[i2]);
                assert(shorter[j2] == elems[j2]);
            }
        }
        assert(shorter[i] == elems[i]);
        lemma_mesh_indexing(shorter, i, k);
    }
}

/// For every node, the ascending list of the triangles that meet there: the
/// index sets over which the radiative coupling matrix sums its per-pair
/// conductances.
pub fn construct_node_elements(elements: &Vec<Element>, n_points: usize) -> (r: Vec<Vec<u32>>)
    requires
        elements@.len() <= u32::MAX,
        n_points <= u32::MAX,
    ensures
        r@.len() == n_points,
        forall|g: int, a: int|
            0 <= g < n_points && 0 <= a < r@[g]@.len() ==> (#[trigger] r@[g]@[a]) < elements@.len()
                && touches(elements@[r@[g]@[a] as int], g),
        forall|g: int, x: int|
            0 <= g < n_points && 0 <= x < elements@.len() && touches(elements@[x], g)
                ==> #[trigger] r@[g]@.contains(x as u32),
        forall|g: int, a: int, b: int|
            0 <= g < n_points && 0 <= a < b < r@[g]@.len() ==> (#[trigger] r@[g]@[a]) < (
            #[trigger] r@[g]@[b]),
{
    let n_elements: usize = elements.len();
    let mut rows: Vec<Vec<u32>> = Vec::new();
    let mut g: usize = 0;
    while g < n_points
        invariant
            g <= n_points,
            n_points <= u32::MAX,
            n_elements == elements@.len(),
            elements@.len() <= u32::MAX,
            rows@.len() == g,
            forall|h: int, a: int|
                0 <= h < g && 0 <= a < rows@[h]@.len() ==> (#[trigger] rows@[h]@[a])
                    < elements@.len() && touches(elements@[rows@[h]@[a] as int], h),
            forall|h: int, x: int|
                0 <= h < g && 0 <= x < elements@.len() && touches(elements@[x], h)
                    ==> #[trigger] rows@[h]@.contains(x as u32),
            forall|h: int, a: int, b: int|
                0 <= h < g && 0 <= a < b < rows@[h]@.len() ==> (#[trigger] rows@[h]@[a]) < (
                #[trigger] rows@[h]@[b]),
        decreases n_points - g,
    {
        let mut row: Vec<u32> = Vec::new();
        let mut i: usize = 0;
        while i < n_elements
            invariant
                i <= n_elements,
                n_elements == elements@.len(),
                elements@.len() <= u32::MAX,
                g < n_points,
                n_points <= u32::MAX,
                forall|a: int|
                    0 <= a < row@.len() ==> (#[trigger] row@[a]) < i && touches(
                        elements@[row@[a] as int],
                        g as int,
                    ),
                forall|x: int|
                    0 <= x < i && touches(elements@[x], g as int) ==> #[trigger] row@.contains(
                        x as u32,
                    ),
                forall|a: int, b: int|
                    0 <= a < b < row@.len() ==> (#[trigger] row@[a]) < (#[trigger] row@[b]),
            decreases n_elements - i,
        {
            let e = &elements[i];
            let gid: u32 = g as u32;
            proof {
                assert(g as u32 as int == g as int);
            }
            if e.p1.global_id == gid || e.p2.global_id == gid || e.p3.global_id == gid {
                let ghost row0 = row@;
                row.push(i as u32);
                proof {
                    assert forall|x: int|
                        0 <= x < i + 1 && touches(elements@[x], g as int) implies #[trigger] row@
                        .contains(x as u32) by {
                        if x < i {
                            assert(row0.contains(x as u32));
                            let a = choose|a: int| 0 <= a < row0.len() && row0[a] == x as u32;
                            assert(row@[a] == x as u32);
                        } else {
                            assert(row@[row@.len() - 1] == x as u32);
                        }
                    }
                }
            }
            i += 1;
        }
        rows.push(row);
        g += 1;
    }
    rows
}

} // verus!
