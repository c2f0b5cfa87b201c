//! The view-factor file grammar.
//!
//! A view-factor stream is big-endian binary: three length-prefixed lists of
//! vectors — Earth infrared, Earth albedo, sun — followed by one matrix.  A
//! vector is `u16 size; f32 start_time; u16 data[size]`, a matrix is
//! `u16 rows; u16 cols; u16 data[rows*cols]`.  Every data word is a view
//! factor quantized to sixteen bits; dequantization (division by `2^16 - 1`)
//! is floating point and left to the application, so the parsed values stay
//! as words and a start time is kept as its 32-bit pattern.
//!
//! The grammar is given by spec functions over the byte sequence, and each
//! reader returns exactly what the grammar assigns, failing exactly when the
//! stream is too short.

use vstd::prelude::*;

use crate::FemError;

verus! {

/// One parsed vector: the start time's bit pattern and the quantized words.
#[derive(Debug, PartialEq)]
pub struct VfVector {
    pub start_time_bits: u32,
    pub data: Vec<u16>,
}

/// One parsed matrix, row-major.
#[derive(Debug, PartialEq)]
pub struct VfMatrix {
    pub rows: u16,
    pub columns: u16,
    pub data: Vec<u16>,
}

/// Everything a view-factor stream holds: per-phase Earth infrared and
/// albedo vectors, sun vectors, and the element-to-element matrix.
#[derive(Debug, PartialEq)]
pub struct ParserViewFactors {
    pub earth_ir: Vec<VfVector>,
    pub earth_albedo: Vec<VfVector>,
    pub sun: Vec<VfVector>,
    pub elements: VfMatrix,
}

/// Mathematical image of a parsed vector.
pub struct VfVectorModel {
    pub start_time_bits: u32,
    pub data: Seq<u16>,
}

/// Mathematical image of a parsed matrix.
pub struct VfMatrixModel {
    pub rows: u16,
    pub columns: u16,
    pub data: Seq<u16>,
}

/// Mathematical image of a whole stream.
pub struct ViewFactorsModel {
    pub earth_ir: Seq<VfVectorModel>,
    pub earth_albedo: Seq<VfVectorModel>,
    pub sun: Seq<VfVectorModel>,
    pub elements: VfMatrixModel,
}

impl View for VfVector {
    type V = VfVectorModel;

    open spec fn view(&self) -> VfVectorModel {
        VfVectorModel { start_time_bits: self.start_time_bits, data: self.data@ }
    }
}

impl View for VfMatrix {
    type V = VfMatrixModel;

    open spec fn view(&self) -> VfMatrixModel {
        VfMatrixModel { rows: self.rows, columns: self.columns, data: self.data@ }
    }
}

impl View for ParserViewFactors {
    type V = ViewFactorsModel;

    open spec fn view(&self) -> ViewFactorsModel {
        ViewFactorsModel {
            earth_ir: vf_views(self.earth_ir@),
            earth_albedo: vf_views(self.earth_albedo@),
            sun: vf_views(self.sun@),
            elements: self.elements@,
        }
    }
}

/// The images of a sequence of parsed vectors.
pub open spec fn vf_views(v: Seq<VfVector>) -> Seq<VfVectorModel> {
    v.map_values(|x: VfVector| x@)
}

/// The big-endian 16-bit word at byte offset `p`.
pub open spec fn be_u16(s: Seq<u8>, p: int) -> u16 {
    (s[p] as int * 0x100 + s[p + 1] as int) as u16
}

/// The big-endian 32-bit word at byte offset `p`.
pub open spec fn be_u32(s: Seq<u8>, p: int) -> u32 {
    (s[p] as int * 0x1000000 + s[p + 1] as int * 0x10000 + s[p + 2] as int * 0x100 + s[p
        + 3] as int) as u32
}

/// The vector starting at offset `p`: its image and the offset past it, or
/// nothing if the stream ends first.
pub open spec fn parse_vector(s: Seq<u8>, p: int) -> Option<(VfVectorModel, int)> {
    if p + 6 > s.len() {
        None
    } else {
        let size = be_u16(s, p) as int;
        if p + 6 + 2 * size > s.len() {
            None
        } else {
            Some(
                (
                    VfVectorModel {
                        start_time_bits: be_u32(s, p + 2),
                        data: Seq::new(size as nat, |k: int| be_u16(s, p + 6 + 2 * k)),
                    },
                    p + 6 + 2 * size,
                ),
            )
        }
    }
}

/// `n` consecutive vectors starting at offset `p`.
pub open spec fn parse_vectors(s: Seq<u8>, p: int, n: int) -> Option<(Seq<VfVectorModel>, int)>
    decreases n,
{
    if n <= 0 {
        Some((Seq::empty(), p))
    } else {
        match parse_vector(s, p) {
            Option::None => None,
            Option::Some((v, p2)) => match parse_vectors(s, p2, n - 1) {
                Option::None => None,
                Option::Some((vs, p3)) => Some((vs.insert(0, v), p3)),
            },
        }
    }
}

/// A length-prefixed list of vectors starting at offset `p`.
pub open spec fn parse_vector_list(s: Seq<u8>, p: int) -> Option<(Seq<VfVectorModel>, int)> {
    if p + 2 > s.len() {
        None
    } else {
        parse_vectors(s, p + 2, be_u16(s, p) as int)
    }
}

/// The matrix starting at offset `p`.
pub open spec fn parse_matrix(s: Seq<u8>, p: int) -> Option<(VfMatrixModel, int)> {
    if p + 4 > s.len() {
        None
    } else {
        let rows = be_u16(s, p) as int;
        let columns = be_u16(s, p + 2) as int;
        let size = rows * columns;
        if p + 4 + 2 * size > s.len() {
            None
        } else {
            Some(
                (
                    VfMatrixModel {
                        rows: be_u16(s, p),
                        columns: be_u16(s, p + 2),
                        data: Seq::new(size as nat, |k: int| be_u16(s, p + 4 + 2 * k)),
                    },
                    p + 4 + 2 * size,
                ),
            )
        }
    }
}

/// A whole stream: Earth infrared, Earth albedo and sun vector lists, then
/// the element matrix.  Trailing bytes are ignored.
pub open spec fn parse_view_factors(s: Seq<u8>) -> Option<ViewFactorsModel> {
    match parse_vector_list(s, 0) {
        Option::None => None,
        Option::Some((earth_ir, p1)) => match parse_vector_list(s, p1) {
            Option::None => None,
            Option::Some((earth_albedo, p2)) => match parse_vector_list(s, p2) {
                Option::None => None,
                Option::Some((sun, p3)) => match parse_matrix(s, p3) {
                    Option::None => None,
                    Option::Some((elements, _p4)) => Some(
                        ViewFactorsModel { earth_ir, earth_albedo, sun, elements },
                    ),
                },
            },
        },
    }
}

/// Reads the big-endian 16-bit word at `pos`.
fn read_u16_be(bytes: &Vec<u8>, pos: usize) -> (r: u16)
    requires
        pos + 2 <= bytes@.len(),
    ensures
        r == be_u16(bytes@, pos as int),
{
    let _len: usize = bytes.len();
    (bytes[pos] as u16) * 0x100 + (bytes[pos + 1] as u16)
}

/// Reads the big-endian 32-bit word at `pos`.
fn read_u32_be(bytes: &Vec<u8>, pos: usize) -> (r: u32)
    requires
        pos + 4 <= bytes@.len(),
    ensures
        r == be_u32(bytes@, pos as int),
{
    let _len: usize = bytes.len();
    (bytes[pos] as u32) * 0x1000000 + (bytes[pos + 1] as u32) * 0x10000 + (bytes[pos
        + 2] as u32) * 0x100 + (bytes[pos + 3] as u32)
}

/// Reads `count` consecutive 16-bit words starting at `pos`.
fn read_words(bytes: &Vec<u8>, pos: usize, count: usize) -> (r: Vec<u16>)
    requires
        pos as int + 2 * count as int <= bytes@.len(),
    ensures
        r@.len() == count,
        forall|k: int| 0 <= k < count ==> r@[k] == be_u16(bytes@, pos + 2 * k),
{
    let _len: usize = bytes.len();
    let mut data: Vec<u16> = Vec::new();
    let mut k: usize = 0;
    let mut cur: usize = pos;
    while k < count
        invariant
            k <= count,
            cur == pos + 2 * k,
            pos as int + 2 * count as int <= bytes@.len(),
            bytes@.len() <= usize::MAX,
            data@.len() == k,
            forall|k2: int| 0 <= k2 < k ==> data@[k2] == be_u16(bytes@, pos + 2 * k2),
        decreases count - k,
    {
        data.push(read_u16_be(bytes, cur));
        cur += 2;
        k += 1;
    }
    data
}

/// Reads one vector at `pos`.  Fails exactly when the stream is too short
/// for the header or for the announced payload.
pub fn deserialize_vector(bytes: &Vec<u8>, pos: usize) -> (r: Result<(VfVector, usize), FemError>)
    requires
        pos <= bytes@.len(),
    ensures
        r is Ok <==> parse_vector(bytes@, pos as int) is Some,
        r is Err ==> r == Err::<(VfVector, usize), FemError>(FemError::ViewFactorsTruncated),
        r matches Ok((v, end)) ==> end <= bytes@.len() && parse_vector(bytes@, pos as int) == Some(
            (v@, end as int),
        ),
{
    if bytes.len() - pos < 6 {
        return Err(FemError::ViewFactorsTruncated);
    }
    let size: u16 = read_u16_be(bytes, pos);
    let start_time_bits: u32 = read_u32_be(bytes, pos + 2);
    if bytes.len() - (pos + 6) < 2 * (size as usize) {
        return Err(FemError::ViewFactorsTruncated);
    }
    let data = read_words(bytes, pos + 6, size as usize);
    let v = VfVector { start_time_bits, data };
    let end: usize = pos + 6 + 2 * (size as usize);
    proof {
        let m = parse_vector(bytes@, pos as int)->Some_0;
        assert(v@.data =~= m.0.data);
    }
    Ok((v, end))
}

/// Reads a length-prefixed list of vectors at `pos`.
pub fn deserialize_multiple_vectors(bytes: &Vec<u8>, pos: usize) -> (r: Result<
    (Vec<VfVector>, usize),
    FemError,
>)
    requires
        pos <= bytes@.len(),
    ensures
        r is Ok <==> parse_vector_list(bytes@, pos as int) is Some,
        r is Err ==> r == Err::<(Vec<VfVector>, usize), FemError>(FemError::ViewFactorsTruncated),
        r matches Ok((vs, end)) ==> end <= bytes@.len() && parse_vector_list(bytes@, pos as int)
            == Some((vf_views(vs@), end as int)),
{
    if bytes.len() - pos < 2 {
        return Err(FemError::ViewFactorsTruncated);
    }
    let n: u16 = read_u16_be(bytes, pos);
    let start: usize = pos + 2;
    let mut out: Vec<VfVector> = Vec::new();
    let mut cur: usize = start;
    let mut i: usize = 0;
    while i < n as usize
        invariant
            i <= n as usize,
            cur <= bytes@.len(),
            pos + 2 <= bytes@.len(),
            start == pos + 2,
            n == be_u16(bytes@, pos as int),
            out@.len() == i,
            match parse_vectors(bytes@, cur as int, n as int - i as int) {
                Option::None => parse_vectors(bytes@, start as int, n as int) is None,
                Option::Some((vs, e)) => parse_vectors(bytes@, start as int, n as int) matches Some(
                    (all, e2),
                ) && e2 == e && all =~= vf_views(out@) + vs,
            },
        decreases n as int - i as int,
    {
        let ghost out0 = out@;
        match deserialize_vector(bytes, cur) {
            Err(e) => {
                proof {
                    assert(parse_vectors(bytes@, cur as int, n as int - i as int) is None);
                }
                return Err(e);
            },
            Ok((v, end)) => {
                proof {
                    let m = n as int - i as int;
                    assert(parse_vector(bytes@, cur as int) == Some((v@, end as int)));
                    match parse_vectors(bytes@, end as int, m - 1) {
                        Option::None => {
                            assert(parse_vectors(bytes@, cur as int, m) is None);
                        },
                        Option::Some((vs2, e2)) => {
                            assert(parse_vectors(bytes@, cur as int, m) == Some(
                                (vs2.insert(0, v@), e2),
                            ));
                            assert(vf_views(out0) + vs2.insert(0, v@) =~= vf_views(out0.push(v))
                                + vs2);
                        },
                    }
                }
                out.push(v);
                cur = end;
            },
        }
        i += 1;
    }
    proof {
        assert(parse_vectors(bytes@, cur as int, 0) == Some((Seq::<VfVectorModel>::empty(), cur as int)));
        match parse_vectors(bytes@, start as int, n as int) {
            Option::None => {},
            Option::Some((all, e2)) => {
                assert(all =~= vf_views(out@) + Seq::<VfVectorModel>::empty());
                assert(all =~= vf_views(out@));
            },
        }
    }
    Ok((out, cur))
}

/// Reads the matrix at `pos`.
pub fn deserialize_matrix(bytes: &Vec<u8>, pos: usize) -> (r: Result<(VfMatrix, usize), FemError>)
    requires
        pos <= bytes@.len(),
    ensures
        r is Ok <==> parse_matrix(bytes@, pos as int) is Some,
        r is Err ==> r == Err::<(VfMatrix, usize), FemError>(FemError::ViewFactorsTruncated),
        r matches Ok((m, end)) ==> end <= bytes@.len() && parse_matrix(bytes@, pos as int) == Some(
            (m@, end as int),
        ),
{
    if bytes.len() - pos < 4 {
        return Err(FemError::ViewFactorsTruncated);
    }
    let rows: u16 = read_u16_be(bytes, pos);
    let columns: u16 = read_u16_be(bytes, pos + 2);
    proof {
        assert(rows as int * columns as int <= 0xffff * 0xffff) by (nonlinear_arith)
            requires
                rows as int <= 0xffff,
                columns as int <= 0xffff,
                rows as int >= 0,
                columns as int >= 0,
        ;
    }
    let num_elements: usize = (rows as usize) * (columns as usize);
    let remaining: usize = bytes.len() - (pos + 4);
    if remaining / 2 < num_elements {
        proof {
            vstd::arithmetic::div_mod::lemma_fundamental_div_mod(remaining as int, 2);
            vstd::arithmetic::div_mod::lemma_mod_bound(remaining as int, 2);
        }
        return Err(FemError::ViewFactorsTruncated);
    }
    proof {
        vstd::arithmetic::div_mod::lemma_fundamental_div_mod(remaining as int, 2);
        vstd::arithmetic::div_mod::lemma_mod_bound(remaining as int, 2);
    }
    let data = read_words(bytes, pos + 4, num_elements);
    let m = VfMatrix { rows, columns, data };
    let end: usize = pos + 4 + 2 * num_elements;
    proof {
        let spec_m = parse_matrix(bytes@, pos as int)->Some_0;
        assert(m@.data =~= spec_m.0.data);
    }
    Ok((m, end))
}

/// Parses a whole view-factor stream, in the order the grammar gives:
/// Earth infrared, Earth albedo, sun, element matrix.
pub fn deserialize_view_factors(bytes: &Vec<u8>) -> (r: Result<ParserViewFactors, FemError>)
    ensures
        r is Ok <==> parse_view_factors(bytes@) is Some,
        r is Err ==> r == Err::<ParserViewFactors, FemError>(FemError::ViewFactorsTruncated),
        r matches Ok(pvf) ==> parse_view_factors(bytes@) == Some(pvf@),
{
    let (earth_ir, p1) = match deserialize_multiple_vectors(bytes, 0) {
        Err(e) => {
            return Err(e);
        },
        Ok(x) => x,
    };
    let (earth_albedo, p2) = match deserialize_multiple_vectors(bytes, p1) {
        Err(e) => {
            return Err(e);
        },
        Ok(x) => x,
    };
    let (sun, p3) = match deserialize_multiple_vectors(bytes, p2) {
        Err(e) => {
            return Err(e);
        },
        Ok(x) => x,
    };
    let (elements, _p4) = match deserialize_matrix(bytes, p3) {
        Err(e) => {
            return Err(e);
        },
        Ok(x) => x,
    };
    Ok(ParserViewFactors { earth_ir, earth_albedo, sun, elements })
}

} // verus!
