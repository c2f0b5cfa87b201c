use solver::parser::{deserialize_matrix, deserialize_multiple_vectors, deserialize_vector,
    deserialize_view_factors};
use solver::FemError;

fn push_u16(bytes: &mut Vec<u8>, v: u16) {
    bytes.push((v >> 8) as u8);
    bytes.push((v & 0xff) as u8);
}

fn push_f32(bytes: &mut Vec<u8>, v: f32) {
    let b = v.to_bits();
    bytes.push((b >> 24) as u8);
    bytes.push((b >> 16) as u8);
    bytes.push((b >> 8) as u8);
    bytes.push(b as u8);
}

fn push_vector(bytes: &mut Vec<u8>, start_time: f32, data: &[u16]) {
    push_u16(bytes, data.len() as u16);
    push_f32(bytes, start_time);
    for &w in data {
        push_u16(bytes, w);
    }
}

#[test]
fn test_vector_roundtrip() {
    let mut bytes: Vec<u8> = Vec::new();
    push_vector(&mut bytes, 600.0, &[0, 0x7fff, 0xffff]);
    let (v, end) = deserialize_vector(&bytes, 0).unwrap();
    assert_eq!(v.start_time_bits, 600.0f32.to_bits());
    assert_eq!(v.data, vec![0, 0x7fff, 0xffff]);
    assert_eq!(end, bytes.len());
}

#[test]
fn test_vector_truncated_header() {
    let bytes: Vec<u8> = vec![0, 1, 0, 0, 0];
    assert_eq!(deserialize_vector(&bytes, 0), Err(FemError::ViewFactorsTruncated));
}

#[test]
fn test_vector_truncated_payload() {
    let mut bytes: Vec<u8> = Vec::new();
    push_vector(&mut bytes, 0.0, &[1, 2, 3]);
    bytes.pop();
    assert_eq!(deserialize_vector(&bytes, 0), Err(FemError::ViewFactorsTruncated));
}

#[test]
fn test_vector_list_roundtrip() {
    let mut bytes: Vec<u8> = Vec::new();
    push_u16(&mut bytes, 2);
    push_vector(&mut bytes, 0.0, &[7]);
    push_vector(&mut bytes, 1000.0, &[8, 9]);
    let (vs, end) = deserialize_multiple_vectors(&bytes, 0).unwrap();
    assert_eq!(vs.len(), 2);
    assert_eq!(vs[0].start_time_bits, 0.0f32.to_bits());
    assert_eq!(vs[0].data, vec![7]);
    assert_eq!(vs[1].start_time_bits, 1000.0f32.to_bits());
    assert_eq!(vs[1].data, vec![8, 9]);
    assert_eq!(end, bytes.len());
}

#[test]
fn test_vector_list_empty() {
    let mut bytes: Vec<u8> = Vec::new();
    push_u16(&mut bytes, 0);
    let (vs, end) = deserialize_multiple_vectors(&bytes, 0).unwrap();
    assert_eq!(vs.len(), 0);
    assert_eq!(end, 2);
}

#[test]
fn test_vector_list_short_count() {
    let mut bytes: Vec<u8> = Vec::new();
    push_u16(&mut bytes, 3);
    push_vector(&mut bytes, 0.0, &[7]);
    assert_eq!(deserialize_multiple_vectors(&bytes, 0), Err(FemError::ViewFactorsTruncated));
}

#[test]
fn test_matrix_roundtrip() {
    let mut bytes: Vec<u8> = Vec::new();
    push_u16(&mut bytes, 2);
    push_u16(&mut bytes, 3);
    for w in [1u16, 2, 3, 4, 5, 6] {
        push_u16(&mut bytes, w);
    }
    let (m, end) = deserialize_matrix(&bytes, 0).unwrap();
    assert_eq!(m.rows, 2);
    assert_eq!(m.columns, 3);
    assert_eq!(m.data, vec![1, 2, 3, 4, 5, 6]);
    assert_eq!(end, bytes.len());
}

#[test]
fn test_matrix_truncated() {
    let mut bytes: Vec<u8> = Vec::new();
    push_u16(&mut bytes, 2);
    push_u16(&mut bytes, 2);
    push_u16(&mut bytes, 1);
    push_u16(&mut bytes, 2);
    push_u16(&mut bytes, 3);
    assert_eq!(deserialize_matrix(&bytes, 0), Err(FemError::ViewFactorsTruncated));
}

#[test]
fn test_view_factors_roundtrip() {
    let mut bytes: Vec<u8> = Vec::new();
    // Earth infrared: two phases.
    push_u16(&mut bytes, 2);
    push_vector(&mut bytes, 0.0, &[100, 200]);
    push_vector(&mut bytes, 3000.0, &[300, 400]);
    // Earth albedo: two phases.
    push_u16(&mut bytes, 2);
    push_vector(&mut bytes, 0.0, &[500, 600]);
    push_vector(&mut bytes, 3000.0, &[700, 800]);
    // Sun: one vector.
    push_u16(&mut bytes, 1);
    push_vector(&mut bytes, 0.0, &[0xffff, 0]);
    // Element-to-element matrix, 2 x 2.
    push_u16(&mut bytes, 2);
    push_u16(&mut bytes, 2);
    for w in [0u16, 655, 655, 0] {
        push_u16(&mut bytes, w);
    }
    let vf = deserialize_view_factors(&bytes).unwrap();
    assert_eq!(vf.earth_ir.len(), 2);
    assert_eq!(vf.earth_ir[1].start_time_bits, 3000.0f32.to_bits());
    assert_eq!(vf.earth_ir[1].data, vec![300, 400]);
    assert_eq!(vf.earth_albedo[0].data, vec![500, 600]);
    assert_eq!(vf.sun.len(), 1);
    assert_eq!(vf.sun[0].data, vec![0xffff, 0]);
    assert_eq!(vf.elements.rows, 2);
    assert_eq!(vf.elements.data, vec![0, 655, 655, 0]);
}

#[test]
fn test_view_factors_trailing_bytes_ignored() {
    let mut bytes: Vec<u8> = Vec::new();
    push_u16(&mut bytes, 0);
    push_u16(&mut bytes, 0);
    push_u16(&mut bytes, 0);
    push_u16(&mut bytes, 1);
    push_u16(&mut bytes, 1);
    push_u16(&mut bytes, 42);
    bytes.push(0xaa);
    let vf = deserialize_view_factors(&bytes).unwrap();
    assert_eq!(vf.earth_ir.len(), 0);
    assert_eq!(vf.elements.data, vec![42]);
}

#[test]
fn test_view_factors_truncated_stream() {
    let mut bytes: Vec<u8> = Vec::new();
    push_u16(&mut bytes, 0);
    push_u16(&mut bytes, 0);
    push_u16(&mut bytes, 0);
    push_u16(&mut bytes, 1);
    assert_eq!(deserialize_view_factors(&bytes), Err(FemError::ViewFactorsTruncated));
}

#[test]
fn test_dequantization_scale() {
    // The dequantization factor is 1 / (2^16 - 1): the largest word maps to
    // exactly 1.  The library keeps the words; the application divides.
    let mut bytes: Vec<u8> = Vec::new();
    push_vector(&mut bytes, 0.0, &[0xffff]);
    let (v, _) = deserialize_vector(&bytes, 0).unwrap();
    let factor: f64 = 1.0 / ((1u32 << 16) - 1) as f64;
    assert_eq!(v.data[0] as f64 * factor, 1.0);
}
