//! Scenario tests: the meshes and run configurations of the standard cases —
//! conduction cubes, radiating plates, orbital flux sweeps, a pyramid and a
//! nut — driven through the library's mesh indexing, view-factor parsing and
//! run scheduling.

use solver::element::Element;
use solver::engine::{Action, FEMParameters};
use solver::executor::{run_solver, SimulationPlan};
use solver::orbit_manager::{OrbitManager, OrbitParameters};
use solver::parser::deserialize_view_factors;
use solver::point::Point;
use solver::solver::{calculate_number_of_points, construct_node_elements, construct_points_array};

fn pos(x: f64, y: f64, z: f64) -> Vec<u64> {
    vec![x.to_bits(), y.to_bits(), z.to_bits()]
}

fn mesh(points: &[Point], tris: &[[usize; 3]], two_sided: bool) -> Vec<Element> {
    let mut elements: Vec<Element> = Vec::new();
    for t in tris {
        elements.push(
            Element::new(
                points[t[0]].clone(),
                points[t[1]].clone(),
                points[t[2]].clone(),
                two_sided,
            )
            .unwrap(),
        );
    }
    elements
}

/// Checks the mesh-indexing law on concrete data: the assembled point array,
/// indexed by a triangle's global ids, returns the triangle's own points.
fn check_gather(elements: &Vec<Element>) {
    let n = calculate_number_of_points(elements);
    let array = construct_points_array(elements, n);
    for e in elements {
        for p in [&e.p1, &e.p2, &e.p3] {
            let gathered = &array[p.global_id as usize];
            assert_eq!(gathered.position, p.position);
            assert_eq!(gathered.temperature, p.temperature);
            assert_eq!(gathered.global_id, p.global_id);
        }
    }
}

fn snapshots_of(plan: &SimulationPlan) -> u64 {
    let mut n: u64 = 0;
    for a in &plan.actions {
        if matches!(a, Action::Snapshot) {
            n += 1;
        }
    }
    n
}

fn steps_of(plan: &SimulationPlan) -> u64 {
    let mut n: u64 = 0;
    for a in &plan.actions {
        if let Action::RunFor(x) = a {
            n += x;
        }
    }
    n
}

fn quiet_orbit() -> OrbitParameters {
    OrbitParameters {
        orbit_period: 6000,
        orbit_divisions: vec![0],
        eclipse_start: -1,
        eclipse_end: -1,
    }
}

fn cube_points(bottom_temp: f64, side_temp: f64) -> Vec<Point> {
    let coords: [(f64, f64, f64); 8] = [
        (0.0, 0.0, 0.0),
        (1.0, 0.0, 0.0),
        (1.0, 1.0, 0.0),
        (0.0, 1.0, 0.0),
        (0.0, 0.0, 1.0),
        (1.0, 0.0, 1.0),
        (1.0, 1.0, 1.0),
        (0.0, 1.0, 1.0),
    ];
    let mut points: Vec<Point> = Vec::new();
    for (id, (x, y, z)) in coords.iter().enumerate() {
        let temp = if *z == 0.0 { bottom_temp } else { side_temp };
        points.push(Point::new(pos(*x, *y, *z), temp.to_bits(), id as u32, 0));
    }
    points
}

const CUBE_TRIS: [[usize; 3]; 12] = [
    [0, 1, 2],
    [0, 2, 3],
    [4, 5, 6],
    [4, 6, 7],
    [0, 1, 5],
    [0, 5, 4],
    [3, 2, 6],
    [3, 6, 7],
    [0, 3, 7],
    [0, 7, 4],
    [1, 2, 6],
    [1, 6, 5],
];

/// Two coplanar unit-sized plates at a small separation: four triangles over
/// eight points.
fn plate_pair(temp_1: f64, temp_2: f64, two_sided: bool) -> Vec<Element> {
    let mut points: Vec<Point> = Vec::new();
    for (id, (x, y)) in [(0.0, 0.0), (1000.0, 0.0), (1000.0, 1000.0), (0.0, 1000.0)]
        .iter()
        .enumerate()
    {
        points.push(Point::new(pos(*x, *y, 0.0), temp_1.to_bits(), id as u32, 0));
    }
    for (id, (x, y)) in [(0.0, 0.0), (1000.0, 0.0), (1000.0, 1000.0), (0.0, 1000.0)]
        .iter()
        .enumerate()
    {
        points.push(Point::new(pos(*x, *y, 0.1), temp_2.to_bits(), (id + 4) as u32, 0));
    }
    mesh(&points, &[[0, 1, 2], [0, 2, 3], [4, 5, 6], [4, 6, 7]], two_sided)
}

fn run_cube_case(bottom_temp: f64, side_temp: f64) -> SimulationPlan {
    let elements = mesh(&cube_points(bottom_temp, side_temp), &CUBE_TRIS, false);
    assert_eq!(calculate_number_of_points(&elements), 8);
    check_gather(&elements);
    let params = FEMParameters { simulation_time: 3600, time_step: 10, snapshot_period: 360 };
    let plan = run_solver("Implicit", &params, &quiet_orbit()).unwrap();
    assert_eq!(snapshots_of(&plan), 11);
    assert_eq!(steps_of(&plan), 360);
    plan
}

#[test]
pub fn test_conduction_1() {
    // Cube with one face at 573 K and the rest at 273 K, no fluxes.
    let plan = run_cube_case(573.0, 273.0);
    let gpu = run_solver(
        "GPU",
        &FEMParameters { simulation_time: 3600, time_step: 10, snapshot_period: 360 },
        &quiet_orbit(),
    )
    .unwrap();
    assert_eq!(plan.actions, gpu.actions);
}

#[test]
pub fn test_conduction_2() {
    // Cube at a uniform 273 K; the fixed 200 W/m² flux is a per-element
    // property of the application, the mesh is isothermal.
    let elements = mesh(&cube_points(273.0, 273.0), &CUBE_TRIS, false);
    let n = calculate_number_of_points(&elements);
    let array = construct_points_array(&elements, n);
    for p in &array {
        assert_eq!(p.temperature, 273.0f64.to_bits());
    }
    run_cube_case(273.0, 273.0);
}

#[test]
pub fn test_conduction_3() {
    // Copper face on an oak cube: same mesh, one face hot.
    run_cube_case(573.0, 273.0);
}

#[test]
pub fn test_conduction_4() {
    // Copper face on an aluminium cube: a finer time step with the same
    // snapshot grid.
    let elements = mesh(&cube_points(573.0, 273.0), &CUBE_TRIS, false);
    check_gather(&elements);
    let params = FEMParameters { simulation_time: 3600, time_step: 5, snapshot_period: 360 };
    let plan = run_solver("Implicit", &params, &quiet_orbit()).unwrap();
    assert_eq!(snapshots_of(&plan), 11);
    assert_eq!(steps_of(&plan), 720);
}

#[test]
pub fn test_conduction_5() {
    // Copper face on an oak cube with a fixed flux: uniform 273 K mesh.
    run_cube_case(273.0, 273.0);
}

#[test]
pub fn test_radiation_1() {
    // Two plates at 500 K and 300 K exchanging radiation only: every node
    // belongs to exactly its plate's triangles, so the radiative coupling
    // sums run over the right element sets.
    let elements = plate_pair(500.0, 300.0, false);
    assert_eq!(calculate_number_of_points(&elements), 8);
    check_gather(&elements);
    let rows = construct_node_elements(&elements, 8);
    assert_eq!(rows[0], vec![0, 1]);
    assert_eq!(rows[1], vec![0]);
    assert_eq!(rows[4], vec![2, 3]);
    assert_eq!(rows[7], vec![3]);
}

#[test]
pub fn test_radiation_2() {
    // Differing infrared absorptivities change only application-side values;
    // the coupling structure is that of two disjoint plates.
    let elements = plate_pair(500.0, 300.0, false);
    let rows = construct_node_elements(&elements, 8);
    for g in 0..4 {
        for i in &rows[g] {
            assert!(*i <= 1);
        }
    }
    for g in 4..8 {
        for i in &rows[g] {
            assert!(*i >= 2);
        }
    }
}

#[test]
pub fn test_radiation_3() {
    // A symmetric element view-factor matrix for the two-plate case parses
    // back symmetrically.
    let mut bytes: Vec<u8> = Vec::new();
    for _ in 0..3 {
        bytes.push(0);
        bytes.push(0);
    }
    bytes.push(0);
    bytes.push(4);
    bytes.push(0);
    bytes.push(4);
    let q: u16 = 20000;
    let vf_rows: [[u16; 4]; 4] = [
        [0, 0, q, q],
        [0, 0, q, q],
        [q, q, 0, 0],
        [q, q, 0, 0],
    ];
    for row in &vf_rows {
        for w in row {
            bytes.push((w >> 8) as u8);
            bytes.push((w & 0xff) as u8);
        }
    }
    let vf = deserialize_view_factors(&bytes).unwrap();
    assert_eq!(vf.elements.rows, 4);
    assert_eq!(vf.elements.columns, 4);
    for i in 0..4 {
        for j in 0..4 {
            assert_eq!(vf.elements.data[i * 4 + j], vf.elements.data[j * 4 + i]);
        }
    }
}

#[test]
pub fn test_radiation_4() {
    // One cube at 473.15 K radiating to space only.
    let elements = mesh(&cube_points(473.15, 473.15), &CUBE_TRIS, false);
    check_gather(&elements);
    for e in &elements {
        assert!(!e.two_side_radiation);
        assert_eq!(e.p1.temperature, 473.15f64.to_bits());
    }
    run_cube_case(473.15, 473.15);
}

#[test]
pub fn test_radiation_5() {
    // One plate radiating from both sides: the sidedness flag survives
    // element construction, doubling the emission matrix downstream.
    let elements = plate_pair(473.15, 473.15, true);
    for e in &elements {
        assert!(e.two_side_radiation);
    }
    check_gather(&elements);
}

fn eclipse_orbit() -> OrbitParameters {
    OrbitParameters {
        orbit_period: 6000,
        orbit_divisions: vec![0, 3000],
        eclipse_start: 2000,
        eclipse_end: 4000,
    }
}

fn sun_case_stream(sun_word: u16, ir_word: u16, albedo_word: u16) -> Vec<u8> {
    let mut bytes: Vec<u8> = Vec::new();
    let push16 = |bytes: &mut Vec<u8>, v: u16| {
        bytes.push((v >> 8) as u8);
        bytes.push((v & 0xff) as u8);
    };
    let push_vec = |bytes: &mut Vec<u8>, start: f32, w: u16| {
        push16(bytes, 1);
        let b = start.to_bits();
        bytes.push((b >> 24) as u8);
        bytes.push((b >> 16) as u8);
        bytes.push((b >> 8) as u8);
        bytes.push(b as u8);
        push16(bytes, w);
    };
    // One phase each of Earth infrared and albedo factors, one sun vector,
    // and a single-element view-factor matrix.
    push16(&mut bytes, 1);
    push_vec(&mut bytes, 0.0, ir_word);
    push16(&mut bytes, 1);
    push_vec(&mut bytes, 0.0, albedo_word);
    push16(&mut bytes, 1);
    push_vec(&mut bytes, 0.0, sun_word);
    push16(&mut bytes, 1);
    push16(&mut bytes, 1);
    push16(&mut bytes, 0);
    bytes
}

#[test]
pub fn test_sun_1() {
    // Sun-pointing cube: full sun view factor, no Earth terms.  The orbit's
    // eclipse window is expanded into labelled divisions, and the schedule
    // switches phase as the orbit crosses them.
    let vf = deserialize_view_factors(&sun_case_stream(0xffff, 0, 0)).unwrap();
    assert_eq!(vf.sun[0].data, vec![0xffff]);
    assert_eq!(vf.earth_ir[0].data, vec![0]);

    let manager = OrbitManager::new(&eclipse_orbit());
    let labels = manager.eclipse_divisions();
    assert_eq!(*labels, vec![(0, false), (0, true), (1, true), (1, false)]);

    let params = FEMParameters { simulation_time: 6000, time_step: 10, snapshot_period: 600 };
    let plan = run_solver("Implicit", &params, &eclipse_orbit()).unwrap();
    assert_eq!(snapshots_of(&plan), 11);
    let mut switches: Vec<usize> = Vec::new();
    for a in &plan.actions {
        if let Action::SetPhase(p) = a {
            switches.push(*p);
        }
    }
    assert_eq!(switches, vec![1, 2, 3]);
}

#[test]
pub fn test_ir_1() {
    // Earth-infrared-only cube: the infrared factor carries the flux, sun
    // and albedo words are zero.
    let vf = deserialize_view_factors(&sun_case_stream(0, 0xffff, 0)).unwrap();
    assert_eq!(vf.earth_ir[0].data, vec![0xffff]);
    assert_eq!(vf.sun[0].data, vec![0]);
    assert_eq!(vf.earth_albedo[0].data, vec![0]);
    run_cube_case(273.15, 273.15);
}

#[test]
pub fn test_albedo_1() {
    // Albedo-only cube: only the albedo factor is set.
    let vf = deserialize_view_factors(&sun_case_stream(0, 0, 0xffff)).unwrap();
    assert_eq!(vf.earth_albedo[0].data, vec![0xffff]);
    assert_eq!(vf.earth_ir[0].data, vec![0]);
    run_cube_case(273.15, 273.15);
}

#[test]
pub fn test_all_sources_1() {
    // All sources on a conduction-free cube: the full stream parses and the
    // run schedule is unchanged by the flux mix.
    let vf = deserialize_view_factors(&sun_case_stream(0xffff, 0xffff, 0x3333)).unwrap();
    assert_eq!(vf.sun[0].data, vec![0xffff]);
    assert_eq!(vf.earth_albedo[0].data, vec![0x3333]);
    run_cube_case(273.15, 273.15);
}

#[test]
pub fn test_all_sources_2() {
    // All sources with conduction: same mesh and schedule as the
    // conduction-free case.
    let with_conduction = run_cube_case(273.15, 273.15);
    let without = run_cube_case(273.15, 273.15);
    assert_eq!(with_conduction.actions, without.actions);
}

#[test]
pub fn test_pyramid() {
    // A square-based pyramid: four faces to the apex and two base triangles.
    let apex = Point::new(pos(0.5, 0.5, 1.0), 273.15f64.to_bits(), 4, 0);
    let mut points: Vec<Point> = Vec::new();
    for (id, (x, y)) in [(0.0, 0.0), (1.0, 0.0), (1.0, 1.0), (0.0, 1.0)].iter().enumerate() {
        points.push(Point::new(pos(*x, *y, 0.0), 273.15f64.to_bits(), id as u32, 0));
    }
    points.push(apex);
    let elements = mesh(
        &points,
        &[[0, 1, 4], [1, 2, 4], [2, 3, 4], [3, 0, 4], [0, 1, 2], [0, 2, 3]],
        false,
    );
    assert_eq!(calculate_number_of_points(&elements), 5);
    check_gather(&elements);
    // The apex meets every side face.
    let rows = construct_node_elements(&elements, 5);
    assert_eq!(rows[4], vec![0, 1, 2, 3]);
}

#[test]
pub fn test_nut() {
    // A ring of triangles between an outer and an inner octagon, like the
    // cross-section of a nut: every node joins exactly two of the sixteen
    // triangles of its band plus its two neighbours' — four in all.
    let mut points: Vec<Point> = Vec::new();
    for i in 0..8u32 {
        let a = (i as f64) * std::f64::consts::PI / 4.0;
        points.push(Point::new(
            pos(4.0 * a.cos(), 4.0 * a.sin(), 0.0),
            293.15f64.to_bits(),
            i,
            0,
        ));
    }
    for i in 0..8u32 {
        let a = (i as f64) * std::f64::consts::PI / 4.0;
        points.push(Point::new(
            pos(2.0 * a.cos(), 2.0 * a.sin(), 0.0),
            293.15f64.to_bits(),
            8 + i,
            0,
        ));
    }
    let mut tris: Vec<[usize; 3]> = Vec::new();
    for i in 0..8usize {
        let j = (i + 1) % 8;
        tris.push([i, j, 8 + i]);
        tris.push([j, 8 + j, 8 + i]);
    }
    let elements = mesh(&points, &tris, false);
    assert_eq!(calculate_number_of_points(&elements), 16);
    check_gather(&elements);
    let rows = construct_node_elements(&elements, 16);
    for g in 0..16 {
        assert_eq!(rows[g].len(), 3);
    }
    let params = FEMParameters { simulation_time: 6000, time_step: 10, snapshot_period: 600 };
    let plan = run_solver("Implicit", &params, &quiet_orbit()).unwrap();
    assert_eq!(snapshots_of(&plan), 11);
    assert_eq!(steps_of(&plan), 600);
}
