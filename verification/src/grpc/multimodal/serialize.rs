//! Tensors as bytes.
//!
//! Single-precision numbers are carried as their bits.

use crate::bytes::{
    lowest_byte_first, pack16, pack32, pack64, packed, packed_concat, packed_len, packed_values,
    patterns16, patterns32, patterns64,
};
use crate::grpc::multimodal::half::{
    bf16_bits, bfloats_are_nearest, distance, exponent, f16_bits, f16_fits, f32_to_bf16_bits,
    f32_to_f16_bits, fraction,
};
use crate::text::{lowered, same, to_ascii_lowercase, trim, trimmed};
use vstd::prelude::*;

verus! {

/// How many elements a tensor of the shape has.
pub open spec fn volume(shape: Seq<usize>) -> nat
    decreases shape.len(),
{
    if shape.len() == 0 {
        1
    } else {
        shape[0] as nat * volume(shape.skip(1))
    }
}

/// A tensor of single-precision numbers in row-major order.
pub struct Tensor {
    pub shape: Vec<usize>,
    pub bits: Vec<u32>,
}

impl Tensor {
    /// As many elements as the shape says.
    pub open spec fn wf(&self) -> bool {
        self.bits@.len() == volume(self.shape@)
    }
}

/// Whether a tensor of the shape has `len` elements.
pub fn has_volume(shape: &Vec<usize>, len: usize) -> (r: bool)
    ensures
        r == (volume(shape@) == len),
{
    // None stands for more than any length.
    let mut product: Option<usize> = Some(1);
    let mut i: usize = shape.len();
    assert(shape@.skip(i as int) =~= Seq::<usize>::empty());
    while i > 0
        invariant
            i <= shape@.len(),
            match product {
                Some(n) => volume(shape@.skip(i as int)) == n,
                None => volume(shape@.skip(i as int)) > usize::MAX,
            },
        decreases i,
    {
        let dim: usize = shape[i - 1];
        proof {
            let rest = shape@.skip(i as int);
            assert(shape@.skip(i - 1).skip(1) =~= rest);
            let v = volume(rest) as int;
            let d = dim as int;
            assert(d == 0 ==> d * v == 0) by (nonlinear_arith);
            assert(d >= 1 && v > usize::MAX ==> d * v > usize::MAX) by (nonlinear_arith)
                requires
                    0 <= v,
            ;
        }
        product = if dim == 0 {
            Some(0)
        } else {
            match product {
                Some(n) => dim.checked_mul(n),
                None => None,
            }
        };
        i = i - 1;
    }
    assert(shape@.skip(0) =~= shape@);
    match product {
        Some(n) => n == len,
        None => false,
    }
}

/// Raw tensor bytes with shape and dtype metadata.
#[derive(Debug, Clone)]
pub struct TensorBytes {
    pub data: Vec<u8>,
    pub shape: Vec<u32>,
    pub dtype: String,
}

/// What a [`TensorBytes`] says.
pub struct TensorText {
    pub data: Seq<u8>,
    pub shape: Seq<u32>,
    pub dtype: Seq<char>,
}

impl View for TensorBytes {
    type V = TensorText;

    open spec fn view(&self) -> TensorText {
        TensorText { data: self.data@, shape: self.shape@, dtype: self.dtype@ }
    }
}

/// The number formats in which a tensor can travel.
#[derive(Debug, Clone, Copy, PartialEq, Eq, Structural)]
pub enum FloatDtype {
    Float32,
    Bfloat16,
    Float16,
}

impl FloatDtype {
    /// The format's name on the wire.
    pub open spec fn text(self) -> Seq<char> {
        match self {
            FloatDtype::Float32 => "float32"@,
            FloatDtype::Bfloat16 => "bfloat16"@,
            FloatDtype::Float16 => "float16"@,
        }
    }

    /// Bytes of one number.
    pub open spec fn size(self) -> nat {
        match self {
            FloatDtype::Float32 => 4,
            _ => 2,
        }
    }

    pub fn name(&self) -> (r: String)
        ensures
            r@ == self.text(),
    {
        match self {
            FloatDtype::Float32 => "float32".to_owned(),
            FloatDtype::Bfloat16 => "bfloat16".to_owned(),
            FloatDtype::Float16 => "float16".to_owned(),
        }
    }

    pub fn element_size(&self) -> (r: usize)
        ensures
            r == self.size(),
    {
        match self {
            FloatDtype::Float32 => 4,
            _ => 2,
        }
    }
}

/// The format that a name stands for, in any case and with white space around
/// it.
pub open spec fn dtype_named(name: Seq<char>) -> Option<FloatDtype> {
    let s = lowered(trimmed(name));
    if s == "float32"@ || s == "fp32"@ || s == "f32"@ {
        Some(FloatDtype::Float32)
    } else if s == "bfloat16"@ || s == "bf16"@ {
        Some(FloatDtype::Bfloat16)
    } else if s == "float16"@ || s == "fp16"@ || s == "f16"@ || s == "half"@ {
        Some(FloatDtype::Float16)
    } else {
        None
    }
}

/// The format in which a tensor travels under `name`: an unknown name means
/// single precision.
pub open spec fn wire_dtype(name: Seq<char>) -> FloatDtype {
    match dtype_named(name) {
        Some(d) => d,
        None => FloatDtype::Float32,
    }
}

pub fn canonical_float_dtype(dtype: &str) -> (r: Option<FloatDtype>)
    ensures
        r == dtype_named(dtype@),
{
    let t = trim(dtype);
    let s = to_ascii_lowercase(t.as_str());
    let s = s.as_str();
    if same(s, "float32") || same(s, "fp32") || same(s, "f32") {
        Some(FloatDtype::Float32)
    } else if same(s, "bfloat16") || same(s, "bf16") {
        Some(FloatDtype::Bfloat16)
    } else if same(s, "float16") || same(s, "fp16") || same(s, "f16") || same(s, "half") {
        Some(FloatDtype::Float16)
    } else {
        None
    }
}

/// The bit patterns of `bits` in the format.
pub open spec fn narrowed(bits: Seq<u32>, dtype: FloatDtype) -> Seq<nat> {
    match dtype {
        FloatDtype::Float32 => patterns32(bits),
        FloatDtype::Bfloat16 => bits.map_values(|b: u32| bf16_bits(b) as nat),
        FloatDtype::Float16 => bits.map_values(|b: u32| f16_bits(b) as nat),
    }
}

/// The bytes of `bits` in the format.
pub open spec fn encoded(bits: Seq<u32>, dtype: FloatDtype) -> Seq<u8> {
    packed(narrowed(bits, dtype), dtype.size())
}

/// A shape as it stands on the wire.
pub open spec fn wire_shape(shape: Seq<usize>) -> Seq<u32> {
    shape.map_values(|d: usize| d as u32)
}

pub fn array_shape(shape: &Vec<usize>) -> (r: Vec<u32>)
    ensures
        r@ == wire_shape(shape@),
{
    let mut r: Vec<u32> = Vec::new();
    let mut i: usize = 0;
    while i < shape.len()
        invariant
            i <= shape@.len(),
            r@ =~= wire_shape(shape@.take(i as int)),
        decreases shape@.len() - i,
    {
        r.push(shape[i] as u32);
        i += 1;
    }
    assert(shape@.take(shape@.len() as int) =~= shape@);
    r
}

/// Little-endian bytes and shape of a tensor, unchanged.
pub fn serialize_array(t: &Tensor) -> (r: (Vec<u8>, Vec<u32>))
    ensures
        r.0@ == encoded(t.bits@, FloatDtype::Float32),
        r.1@ == wire_shape(t.shape@),
{
    let mut data: Vec<u8> = Vec::new();
    pack32(&mut data, &t.bits);
    assert(data@ =~= packed(patterns32(t.bits@), 4));
    (data, array_shape(&t.shape))
}

/// How many values are converted at a time.
pub const CHUNK_VALUES: usize = 262144;

/// Appends the tensor to `out` in a format of two bytes per number.
///
/// Values are converted in bounded chunks, so that no second copy of the
/// tensor is held.
pub fn write_array_as_u16(out: &mut Vec<u8>, bits: &Vec<u32>, dtype: FloatDtype)
    requires
        dtype != FloatDtype::Float32,
    ensures
        final(out)@ == old(out)@ + encoded(bits@, dtype),
{
    let mut at: usize = 0;
    assert(out@ =~= old(out)@ + encoded(bits@.take(0), dtype));
    while at < bits.len()
        invariant
            at <= bits@.len(),
            dtype != FloatDtype::Float32,
            out@ == old(out)@ + encoded(bits@.take(at as int), dtype),
        decreases bits@.len() - at,
    {
        let end: usize = if bits.len() - at > CHUNK_VALUES {
            at + CHUNK_VALUES
        } else {
            bits.len()
        };
        let mut converted: Vec<u16> = Vec::new();
        let mut i: usize = at;
        while i < end
            invariant
                at <= i <= end <= bits@.len(),
                dtype != FloatDtype::Float32,
                patterns16(converted@) =~= narrowed(bits@.subrange(at as int, i as int), dtype),
            decreases end - i,
        {
            let narrow: u16 = match dtype {
                FloatDtype::Bfloat16 => f32_to_bf16_bits(bits[i]),
                _ => f32_to_f16_bits(bits[i]),
            };
            let ghost done = converted@;
            converted.push(narrow);
            proof {
                let part = bits@.subrange(at as int, i as int);
                assert(bits@.subrange(at as int, i + 1) =~= part.push(bits@[i as int]));
                assert(narrowed(part.push(bits@[i as int]), dtype) =~= narrowed(part, dtype).push(
                    narrow as nat,
                ));
                assert(patterns16(converted@) =~= patterns16(done).push(narrow as nat));
            }
            i += 1;
        }
        let ghost before = out@;
        pack16(out, &converted);
        proof {
            let a = bits@.take(at as int);
            let b = bits@.subrange(at as int, end as int);
            assert(a + b =~= bits@.take(end as int));
            assert(narrowed(a + b, dtype) =~= narrowed(a, dtype) + narrowed(b, dtype));
            packed_concat(narrowed(a, dtype), narrowed(b, dtype), 2);
            assert(out@ =~= old(out)@ + encoded(bits@.take(end as int), dtype));
        }
        at = end;
    }
    assert(bits@.take(bits@.len() as int) =~= bits@);
}

/// Appends the tensor to `out` in the format.
pub fn write_array_as_dtype(out: &mut Vec<u8>, bits: &Vec<u32>, dtype: FloatDtype)
    ensures
        final(out)@ == old(out)@ + encoded(bits@, dtype),
{
    match dtype {
        FloatDtype::Float32 => pack32(out, bits),
        _ => write_array_as_u16(out, bits, dtype),
    }
}

/// The bytes, shape and format in which a tensor travels under `dtype`.
pub fn serialize_array_as_dtype(t: &Tensor, dtype: &str) -> (r: (Vec<u8>, Vec<u32>, FloatDtype))
    ensures
        r.2 == wire_dtype(dtype@),
        r.0@ == encoded(t.bits@, r.2),
        r.1@ == wire_shape(t.shape@),
{
    let format: FloatDtype = match canonical_float_dtype(dtype) {
        Some(d) => d,
        None => FloatDtype::Float32,
    };
    let mut data: Vec<u8> = Vec::new();
    write_array_as_dtype(&mut data, &t.bits, format);
    assert(data@ =~= encoded(t.bits@, format));
    (data, array_shape(&t.shape), format)
}

/// A value that a model's preprocessor hands over beside the encoder input.
#[allow(inconsistent_fields)]
pub enum ModelSpecificValue {
    Tensor { data: Vec<u32>, shape: Vec<usize> },
    IntTensor { data: Vec<i64>, shape: Vec<usize> },
    UintTensor { data: Vec<u32>, shape: Vec<usize> },
    IntVec(Vec<i64>),
    UintVec(Vec<u32>),
    FloatVec(Vec<u32>),
    /// A value that does not travel as a tensor.
    Other,
}

/// What a value says, as a tensor: the bit patterns of its elements, their
/// width in bytes, their format and the shape.
pub struct ValueText {
    pub elements: Seq<nat>,
    pub width: nat,
    pub dtype: Seq<char>,
    pub shape: Seq<usize>,
}

impl View for ModelSpecificValue {
    type V = Option<ValueText>;

    open spec fn view(&self) -> Option<ValueText> {
        match *self {
            ModelSpecificValue::Tensor { data, shape } => Some(
                ValueText {
                    elements: patterns32(data@),
                    width: 4,
                    dtype: "float32"@,
                    shape: shape@,
                },
            ),
            ModelSpecificValue::IntTensor { data, shape } => Some(
                ValueText {
                    elements: patterns64(data@),
                    width: 8,
                    dtype: "int64"@,
                    shape: shape@,
                },
            ),
            ModelSpecificValue::UintTensor { data, shape } => Some(
                ValueText {
                    elements: patterns32(data@),
                    width: 4,
                    dtype: "uint32"@,
                    shape: shape@,
                },
            ),
            ModelSpecificValue::IntVec(v) => Some(
                ValueText {
                    elements: patterns64(v@),
                    width: 8,
                    dtype: "int64"@,
                    shape: seq![v@.len() as usize],
                },
            ),
            ModelSpecificValue::UintVec(v) => Some(
                ValueText {
                    elements: patterns32(v@),
                    width: 4,
                    dtype: "uint32"@,
                    shape: seq![v@.len() as usize],
                },
            ),
            ModelSpecificValue::FloatVec(v) => Some(
                ValueText {
                    elements: patterns32(v@),
                    width: 4,
                    dtype: "float32"@,
                    shape: seq![v@.len() as usize],
                },
            ),
            ModelSpecificValue::Other => None,
        }
    }
}

impl ValueText {
    /// As many elements as the shape says.
    pub open spec fn wf(self) -> bool {
        self.elements.len() == volume(self.shape)
    }

    /// The tensor on the wire.
    pub open spec fn tensor(self) -> TensorText {
        TensorText {
            data: packed(self.elements, self.width),
            shape: wire_shape(self.shape),
            dtype: self.dtype,
        }
    }

    /// Rows `start..start + len` along the first dimension.
    pub open spec fn rows(self, start: int, len: int) -> ValueText {
        let row = volume(self.shape.skip(1)) as int;
        ValueText {
            elements: self.elements.subrange(start * row, (start + len) * row),
            shape: self.shape.update(0, len as usize),
            ..self
        }
    }

    /// There are such rows.
    pub open spec fn has_rows(self, start: int, len: int) -> bool {
        self.shape.len() > 0 && start + len <= self.shape[0]
    }
}

impl ModelSpecificValue {
    pub open spec fn wf(&self) -> bool {
        self@ matches Some(v) ==> v.wf()
    }
}

impl ModelSpecificValue {
    /// Whether the value has as many elements as its shape says.
    pub fn is_whole(&self) -> (r: bool)
        ensures
            r == self.wf(),
    {
        match self {
            ModelSpecificValue::Tensor { data, shape } => {
                assert(patterns32(data@).len() == data@.len());
                has_volume(shape, data.len())
            },
            ModelSpecificValue::IntTensor { data, shape } => {
                assert(patterns64(data@).len() == data@.len());
                has_volume(shape, data.len())
            },
            ModelSpecificValue::UintTensor { data, shape } => {
                assert(patterns32(data@).len() == data@.len());
                has_volume(shape, data.len())
            },
            ModelSpecificValue::IntVec(v) => {
                let len: usize = v.len();
                proof {
                    lemma_flat_rows(len, len);
                    assert(patterns64(v@).len() == len);
                }
                true
            },
            ModelSpecificValue::UintVec(v) => {
                let len: usize = v.len();
                proof {
                    lemma_flat_rows(len, len);
                    assert(patterns32(v@).len() == len);
                }
                true
            },
            ModelSpecificValue::FloatVec(v) => {
                let len: usize = v.len();
                proof {
                    lemma_flat_rows(len, len);
                    assert(patterns32(v@).len() == len);
                }
                true
            },
            ModelSpecificValue::Other => true,
        }
    }
}

/// Convert a model-specific value to tensor bytes, if it travels as a tensor.
pub fn model_specific_to_tensor_bytes(value: &ModelSpecificValue) -> (r: Option<TensorBytes>)
    ensures
        match value@ {
            Some(v) => r is Some && r->0@ == v.tensor(),
            None => r is None,
        },
{
    let mut out: Vec<u8> = Vec::new();
    match value {
        ModelSpecificValue::Tensor { data, shape } => {
            pack32(&mut out, data);
            assert(out@ =~= packed(patterns32(data@), 4));
            Some(TensorBytes { data: out, shape: array_shape(shape), dtype: "float32".to_owned() })
        },
        ModelSpecificValue::IntTensor { data, shape } => {
            pack64(&mut out, data);
            assert(out@ =~= packed(patterns64(data@), 8));
            Some(TensorBytes { data: out, shape: array_shape(shape), dtype: "int64".to_owned() })
        },
        ModelSpecificValue::UintTensor { data, shape } => {
            pack32(&mut out, data);
            assert(out@ =~= packed(patterns32(data@), 4));
            Some(TensorBytes { data: out, shape: array_shape(shape), dtype: "uint32".to_owned() })
        },
        ModelSpecificValue::UintVec(v) => {
            pack32(&mut out, v);
            assert(out@ =~= packed(patterns32(v@), 4));
            Some(TensorBytes { data: out, shape: one_dim(v.len()), dtype: "uint32".to_owned() })
        },
        ModelSpecificValue::IntVec(v) => {
            pack64(&mut out, v);
            assert(out@ =~= packed(patterns64(v@), 8));
            Some(TensorBytes { data: out, shape: one_dim(v.len()), dtype: "int64".to_owned() })
        },
        ModelSpecificValue::FloatVec(v) => {
            pack32(&mut out, v);
            assert(out@ =~= packed(patterns32(v@), 4));
            Some(TensorBytes { data: out, shape: one_dim(v.len()), dtype: "float32".to_owned() })
        },
        ModelSpecificValue::Other => None,
    }
}

fn one_dim(len: usize) -> (r: Vec<u32>)
    ensures
        r@ == wire_shape(seq![len]),
{
    let mut r: Vec<u32> = Vec::new();
    r.push(len as u32);
    assert(r@ =~= wire_shape(seq![len]));
    r
}

/// Rows `start..start + len` of row-major data, with the shape they have.
pub fn take_rows<T: Copy>(
    data: &Vec<T>,
    shape: &Vec<usize>,
    start: usize,
    len: usize,
) -> (r: (Vec<T>, Vec<usize>))
    requires
        data@.len() == volume(shape@),
        shape@.len() > 0,
        start + len <= shape@[0],
    ensures
        r.0@ == data@.subrange(
            start * volume(shape@.skip(1)),
            (start + len) * volume(shape@.skip(1)),
        ),
        r.1@ == shape@.update(0, len),
        0 <= start * volume(shape@.skip(1)) <= (start + len) * volume(shape@.skip(1))
            <= data@.len(),
        r.0@.len() == volume(r.1@),
{
    let ghost row = volume(shape@.skip(1)) as int;
    let mut out_shape: Vec<usize> = Vec::new();
    out_shape.extend_from_slice(shape.as_slice());
    assert(out_shape@ =~= shape@);
    out_shape.set(0, len);
    assert(out_shape@.skip(1) =~= shape@.skip(1));
    let mut out: Vec<T> = Vec::new();
    if shape[0] == 0 {
        assert(start == 0 && len == 0);
        assert(start * row == 0 && (start + len) * row == 0 && len * row == 0)
            by (nonlinear_arith)
            requires
                start == 0,
                len == 0,
        ;
        assert(out@ =~= data@.subrange(0, 0));
        return (out, out_shape);
    }
    let width: usize = data.len() / shape[0];
    proof {
        let n = shape@[0] as int;
        assert(data@.len() == n * row);
        vstd::arithmetic::div_mod::lemma_div_multiples_vanish(row, n);
        assert(n * row / n == row) by {
            assert(n * row == row * n) by (nonlinear_arith);
        }
        assert(width == row);
        assert(0 <= start * row <= (start + len) * row <= n * row) by (nonlinear_arith)
            requires
                0 <= start,
                0 <= len,
                start + len <= n,
                0 <= row,
        ;
        assert((start + len) * row - start * row == len * row) by (nonlinear_arith);
    }
    let from: usize = start * width;
    let to: usize = (start + len) * width;
    let mut i: usize = from;
    while i < to
        invariant
            from <= i <= to <= data@.len(),
            out@ =~= data@.subrange(from as int, i as int),
        decreases to - i,
    {
        out.push(data[i]);
        i += 1;
    }
    (out, out_shape)
}

impl ModelSpecificValue {
    /// Rows `start..start + len` along the first dimension; none where the
    /// value has no such rows.
    pub fn slice_first_dim(&self, start: usize, len: usize) -> (r: Option<Self>)
        requires
            self.wf(),
        ensures
            r is Some <==> self@ is Some && self@->0.has_rows(start as int, len as int),
            r matches Some(v) ==> v@ == Some(self@->0.rows(start as int, len as int)) && v.wf(),
    {
        match self {
            ModelSpecificValue::Tensor { data, shape } => {
                if shape.len() == 0 || len > shape[0] || start > shape[0] - len {
                    return None;
                }
                let (d, s) = take_rows(data, shape, start, len);
                proof {
                    let row = volume(shape@.skip(1)) as int;
                    assert(patterns32(d@) =~= patterns32(data@).subrange(
                        start * row,
                        (start + len) * row,
                    ));
                }
                Some(ModelSpecificValue::Tensor { data: d, shape: s })
            },
            ModelSpecificValue::IntTensor { data, shape } => {
                if shape.len() == 0 || len > shape[0] || start > shape[0] - len {
                    return None;
                }
                let (d, s) = take_rows(data, shape, start, len);
                proof {
                    let row = volume(shape@.skip(1)) as int;
                    assert(patterns64(d@) =~= patterns64(data@).subrange(
                        start * row,
                        (start + len) * row,
                    ));
                }
                Some(ModelSpecificValue::IntTensor { data: d, shape: s })
            },
            ModelSpecificValue::UintTensor { data, shape } => {
                if shape.len() == 0 || len > shape[0] || start > shape[0] - len {
                    return None;
                }
                let (d, s) = take_rows(data, shape, start, len);
                proof {
                    let row = volume(shape@.skip(1)) as int;
                    assert(patterns32(d@) =~= patterns32(data@).subrange(
                        start * row,
                        (start + len) * row,
                    ));
                }
                Some(ModelSpecificValue::UintTensor { data: d, shape: s })
            },
            ModelSpecificValue::IntVec(v) => {
                if len > v.len() || start > v.len() - len {
                    return None;
                }
                let part = take_part(v, start, len);
                proof {
                    lemma_flat_rows(v@.len() as usize, len);
                    assert(patterns64(part@) =~= patterns64(v@).subrange(
                        start * 1,
                        (start + len) * 1,
                    ));
                    assert(seq![v@.len() as usize].update(0, len) =~= seq![len]);
                }
                Some(ModelSpecificValue::IntVec(part))
            },
            ModelSpecificValue::UintVec(v) => {
                if len > v.len() || start > v.len() - len {
                    return None;
                }
                let part = take_part(v, start, len);
                proof {
                    lemma_flat_rows(v@.len() as usize, len);
                    assert(patterns32(part@) =~= patterns32(v@).subrange(
                        start * 1,
                        (start + len) * 1,
                    ));
                    assert(seq![v@.len() as usize].update(0, len) =~= seq![len]);
                }
                Some(ModelSpecificValue::UintVec(part))
            },
            ModelSpecificValue::FloatVec(v) => {
                if len > v.len() || start > v.len() - len {
                    return None;
                }
                let part = take_part(v, start, len);
                proof {
                    lemma_flat_rows(v@.len() as usize, len);
                    assert(patterns32(part@) =~= patterns32(v@).subrange(
                        start * 1,
                        (start + len) * 1,
                    ));
                    assert(seq![v@.len() as usize].update(0, len) =~= seq![len]);
                }
                Some(ModelSpecificValue::FloatVec(part))
            },
            ModelSpecificValue::Other => None,
        }
    }
}

/// The volumes of a list and of its rows.
proof fn lemma_flat_rows(len: usize, part: usize)
    ensures
        volume(seq![len].skip(1)) == 1,
        volume(seq![part]) == part,
{
    assert(seq![len].skip(1) =~= Seq::<usize>::empty());
    assert(seq![part].skip(1) =~= Seq::<usize>::empty());
    assert(volume(Seq::<usize>::empty()) == 1);
}

fn take_part<T: Copy>(v: &Vec<T>, start: usize, len: usize) -> (r: Vec<T>)
    requires
        start + len <= v@.len(),
    ensures
        r@ == v@.subrange(start as int, start + len),
        start + len <= usize::MAX,
{
    assert(start + len <= v.len());
    let mut out: Vec<T> = Vec::new();
    let mut i: usize = 0;
    while i < len
        invariant
            i <= len,
            start + len <= v@.len(),
            start + len <= usize::MAX,
            out@ =~= v@.subrange(start as int, start + i),
        decreases len - i,
    {
        out.push(v[start + i]);
        i += 1;
    }
    out
}

/// A tensor on the wire is its numbers one behind the other, lowest byte first: in
/// single precision exactly, in bfloat16 within half a step and with the same sign,
/// in half precision as [`f16_bits`] says.
pub proof fn numbers_reach_the_wire(bits: Seq<u32>, k: int)
    requires
        0 <= k < bits.len(),
    ensures
        ({
            let b = encoded(bits, FloatDtype::Float32);
            &&& b.len() == 4 * bits.len()
            &&& b[4 * k] + 0x100 * b[4 * k + 1] + 0x1_0000 * b[4 * k + 2] + 0x100_0000 * b[4 * k
                + 3] == bits[k]
        }),
        ({
            let b = encoded(bits, FloatDtype::Bfloat16);
            let half = b[2 * k] + 0x100 * b[2 * k + 1];
            &&& b.len() == 2 * bits.len()
            &&& !(exponent(bits[k]) == 0xff && fraction(bits[k]) != 0) ==> {
                &&& 2 * distance(half * 0x1_0000, bits[k] as int) <= 0x1_0000
                &&& half >= 0x8000 <==> bits[k] >= 0x8000_0000
            }
        }),
        ({
            let b = encoded(bits, FloatDtype::Float16);
            &&& b.len() == 2 * bits.len()
            &&& b[2 * k] + 0x100 * b[2 * k + 1] == f16_bits(bits[k])
        }),
{
    let w = narrowed(bits, FloatDtype::Float32);
    let b = narrowed(bits, FloatDtype::Bfloat16);
    let f = narrowed(bits, FloatDtype::Float16);
    packed_len(w, 4);
    packed_len(b, 2);
    packed_len(f, 2);
    packed_values(w, 4, k);
    packed_values(b, 2, k);
    packed_values(f, 2, k);
    lowest_byte_first(w[k]);
    lowest_byte_first(b[k]);
    lowest_byte_first(f[k]);
    if !(exponent(bits[k]) == 0xff && fraction(bits[k]) != 0) {
        bfloats_are_nearest(bits[k], 0);
    }
    f16_fits(bits[k]);
    let ew = encoded(bits, FloatDtype::Float32);
    let pw = ew.subrange(k * 4, (k + 1) * 4);
    assert(pw[0] == ew[4 * k] && pw[1] == ew[4 * k + 1] && pw[2] == ew[4 * k + 2] && pw[3] == ew[4
        * k + 3]);
    let eb = encoded(bits, FloatDtype::Bfloat16);
    let pb = eb.subrange(k * 2, (k + 1) * 2);
    assert(pb[0] == eb[2 * k] && pb[1] == eb[2 * k + 1]);
    let ef = encoded(bits, FloatDtype::Float16);
    let pf = ef.subrange(k * 2, (k + 1) * 2);
    assert(pf[0] == ef[2 * k] && pf[1] == ef[2 * k + 1]);
}

/// A model-specific value on the wire is its elements one behind the other, lowest
/// byte first, negative ones in two's complement, under the name of their format.
pub proof fn elements_reach_the_wire(value: ModelSpecificValue, k: int)
    requires
        value@ is Some,
        0 <= k,
    ensures
        ({
            let t = value@->0.tensor();
            let d = t.data;
            let low = d[4 * k] + 0x100 * d[4 * k + 1] + 0x1_0000 * d[4 * k + 2] + 0x100_0000 * d[4
                * k + 3];
            let wide = d[8 * k] + 0x100 * d[8 * k + 1] + 0x1_0000 * d[8 * k + 2] + 0x100_0000 * d[8
                * k + 3] + 0x1_0000_0000 * d[8 * k + 4] + 0x100_0000_0000 * d[8 * k + 5]
                + 0x1_0000_0000_0000 * d[8 * k + 6] + 0x100_0000_0000_0000 * d[8 * k + 7];
            match value {
                ModelSpecificValue::Tensor { data, shape } => {
                    &&& d.len() == 4 * data@.len() && t.dtype == "float32"@
                    &&& t.shape.len() == shape@.len()
                    &&& k < data@.len() ==> low == data@[k]
                },
                ModelSpecificValue::UintTensor { data, shape } => {
                    &&& d.len() == 4 * data@.len() && t.dtype == "uint32"@
                    &&& t.shape.len() == shape@.len()
                    &&& k < data@.len() ==> low == data@[k]
                },
                ModelSpecificValue::IntTensor { data, shape } => {
                    &&& d.len() == 8 * data@.len() && t.dtype == "int64"@
                    &&& t.shape.len() == shape@.len()
                    &&& k < data@.len() ==> wide == data@[k] || wide == data@[k]
                        + 0x1_0000_0000_0000_0000 && data@[k] < 0
                },
                ModelSpecificValue::UintVec(v) => {
                    &&& d.len() == 4 * v@.len() && t.dtype == "uint32"@
                    &&& t.shape.len() == 1 && (v@.len() <= u32::MAX ==> t.shape[0] == v@.len())
                    &&& k < v@.len() ==> low == v@[k]
                },
                ModelSpecificValue::FloatVec(v) => {
                    &&& d.len() == 4 * v@.len() && t.dtype == "float32"@
                    &&& t.shape.len() == 1 && (v@.len() <= u32::MAX ==> t.shape[0] == v@.len())
                    &&& k < v@.len() ==> low == v@[k]
                },
                ModelSpecificValue::IntVec(v) => {
                    &&& d.len() == 8 * v@.len() && t.dtype == "int64"@
                    &&& t.shape.len() == 1 && (v@.len() <= u32::MAX ==> t.shape[0] == v@.len())
                    &&& k < v@.len() ==> wide == v@[k] || wide == v@[k]
                        + 0x1_0000_0000_0000_0000 && v@[k] < 0
                },
                ModelSpecificValue::Other => false,
            }
        }),
{
    let v = value@->0;
    let d = packed(v.elements, v.width);
    packed_len(v.elements, v.width);
    if k < v.elements.len() {
        packed_values(v.elements, v.width, k);
        lowest_byte_first(v.elements[k]);
        let part = d.subrange(k * v.width, (k + 1) * v.width);
        if v.width == 4 {
            assert(part[0] == d[4 * k] && part[1] == d[4 * k + 1] && part[2] == d[4 * k + 2]
                && part[3] == d[4 * k + 3]);
        } else {
            assert(part[0] == d[8 * k] && part[1] == d[8 * k + 1] && part[2] == d[8 * k + 2]
                && part[3] == d[8 * k + 3] && part[4] == d[8 * k + 4] && part[5] == d[8 * k + 5]
                && part[6] == d[8 * k + 6] && part[7] == d[8 * k + 7]);
        }
    }
}

/// A shape on the wire has the dimensions of the tensor, in order.
pub proof fn shapes_reach_the_wire(shape: Seq<usize>, i: int)
    requires
        0 <= i < shape.len(),
        shape[i] <= u32::MAX,
    ensures
        wire_shape(shape).len() == shape.len(),
        wire_shape(shape)[i] == shape[i],
{
}

/// Each format is found under its own name, and an unknown name means single
/// precision.
pub proof fn formats_are_found_by_name(name: Seq<char>)
    ensures
        lowered(trimmed(name)) == "float32"@ || lowered(trimmed(name)) == "fp32"@ || lowered(
            trimmed(name),
        ) == "f32"@ ==> dtype_named(name) == Some(FloatDtype::Float32),
        lowered(trimmed(name)) == "f16"@ ==> dtype_named(name) == Some(FloatDtype::Float16),
        FloatDtype::Float32.text() == "float32"@,
        FloatDtype::Bfloat16.text() == "bfloat16"@,
        FloatDtype::Float16.text() == "float16"@,
        lowered(trimmed(name)) == "float32"@ ==> wire_dtype(name) == FloatDtype::Float32,
        lowered(trimmed(name)) == "bfloat16"@ || lowered(trimmed(name)) == "bf16"@ ==> wire_dtype(
            name,
        ) == FloatDtype::Bfloat16,
        lowered(trimmed(name)) == "float16"@ || lowered(trimmed(name)) == "fp16"@ || lowered(
            trimmed(name),
        ) == "half"@ ==> wire_dtype(name) == FloatDtype::Float16,
        dtype_named(name) is None ==> wire_dtype(name) == FloatDtype::Float32,
        dtype_named(name) matches Some(d) ==> wire_dtype(name) == d,
{
    reveal_strlit("float32");
    reveal_strlit("fp32");
    reveal_strlit("f32");
    reveal_strlit("bfloat16");
    reveal_strlit("bf16");
    reveal_strlit("float16");
    reveal_strlit("fp16");
    reveal_strlit("f16");
    reveal_strlit("half");
    assert("float32"@[0] == 'f' && "float32"@[5] == '3');
    assert("bfloat16"@[0] == 'b' && "bf16"@[0] == 'b');
    assert("float16"@[0] == 'f' && "float16"@[5] == '1');
    assert("fp16"@[0] == 'f' && "fp16"@[2] == '1');
    assert("fp32"@[0] == 'f' && "fp32"@[2] == '3');
    assert("half"@[0] == 'h');
    assert("half"@ != "fp32"@ && "half"@ != "bf16"@ && "half"@ != "f32"@);
    assert("half"@.len() == 4 && "float32"@.len() == 7 && "bfloat16"@.len() == 8);
    assert("fp16"@ != "fp32"@ && "fp16"@ != "bf16"@ && "fp16"@.len() == 4);
    assert("float16"@ != "float32"@ && "float16"@.len() == 7);
    assert("f16"@[1] == '1' && "f32"@[1] == '3' && "f16"@.len() == 3);
    assert("fp32"@.len() == 4 && "bf16"@.len() == 4);
    assert("f16"@ != "f32"@);
}

/// Rows that are there can be taken whole: what is taken has as many elements as its
/// shape says, and is of the kind of what it is taken from. Rows beyond the end are
/// not there.
pub proof fn rows_are_taken_whole(v: ValueText, start: int, len: int)
    requires
        v.wf(),
        0 <= start,
        0 <= len,
    ensures
        v.has_rows(start, len) ==> v.rows(start, len).wf(),
        v.has_rows(start, len) ==> v.rows(start, len).width == v.width && v.rows(start, len).dtype
            == v.dtype && v.rows(start, len).shape.len() == v.shape.len() && v.rows(
            start,
            len,
        ).shape[0] == len,
        v.shape.len() > 0 && start + len > v.shape[0] ==> !v.has_rows(start, len),
        v.shape.len() > 0 && start + len <= v.shape[0] ==> v.has_rows(start, len),
        v.shape.len() == 0 ==> !v.has_rows(start, len),
{
    if v.has_rows(start, len) {
        let row = volume(v.shape.skip(1)) as int;
        let rows = v.shape[0] as int;
        let part = v.rows(start, len);
        assert(part.shape.skip(1) =~= v.shape.skip(1));
        assert(part.shape[0] == len);
        assert((start + len) * row - start * row == len * row && 0 <= start * row && (start + len)
            * row <= rows * row && start * row <= (start + len) * row) by (nonlinear_arith)
            requires
                0 <= start,
                0 <= len,
                start + len <= rows,
                0 <= row,
        ;
        assert(part.elements.len() == len * row);
        assert(volume(part.shape) == len * row);
    }
}

} // verus!
