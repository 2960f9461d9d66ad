//! The row decoder: from a frame's raw bytes to one typed record per row.

use crate::endian::{
    as_signed, le_value, read_i16_le, read_i32_le, read_u16_le, read_u32_le, read_u64_le,
};
use crate::frame::{frame_spec, Frame, FrameSpec};
use crate::schema::{fits_stride, Datatype, FieldDescriptor, FieldSpec, Schema};
use crate::status::{DecodeError, FrameError};
use crate::validate::{validate, validate_spec};
use vstd::arithmetic::div_mod::{lemma_div_multiples_vanish, lemma_mod_multiples_basic};
use vstd::prelude::*;
use vstd::slice::spec_slice_len;

verus! {

/// One decoded element. `Float32` and `Float64` carry the bit pattern of the
/// element's IEEE-754 encoding, not a rounded number.
#[derive(Debug, Clone, Copy, PartialEq, Eq, Structural)]
pub enum Value {
    Int8(i8),
    Uint8(u8),
    Int16(i16),
    Uint16(u16),
    Int32(i32),
    Uint32(u32),
    Float32(u32),
    Float64(u64),
}

/// One decoded row: the elements of all fields, in field order.
#[derive(Debug, Clone, PartialEq, Eq)]
pub struct Record {
    pub values: Vec<Value>,
}

impl View for Record {
    type V = Seq<Value>;

    open spec fn view(&self) -> Seq<Value> {
        self.values@
    }
}

/// The rows that a list of records stands for.
pub open spec fn records_view(records: Seq<Record>) -> Seq<Seq<Value>> {
    Seq::new(records.len(), |i: int| records[i]@)
}

/// The element of type `datatype` that `bytes` encode in little-endian order.
pub open spec fn element_value(datatype: Datatype, bytes: Seq<u8>) -> Value {
    match datatype {
        Datatype::Int8 => Value::Int8(as_signed(le_value(bytes), 0x100) as i8),
        Datatype::Uint8 => Value::Uint8(le_value(bytes) as u8),
        Datatype::Int16 => Value::Int16(as_signed(le_value(bytes), 0x1_0000) as i16),
        Datatype::Uint16 => Value::Uint16(le_value(bytes) as u16),
        Datatype::Int32 => Value::Int32(as_signed(le_value(bytes), 0x1_0000_0000) as i32),
        Datatype::Uint32 => Value::Uint32(le_value(bytes) as u32),
        Datatype::Float32 => Value::Float32(le_value(bytes) as u32),
        Datatype::Float64 => Value::Float64(le_value(bytes) as u64),
    }
}

/// Position in the buffer of element `k` of `field`, in the row that starts
/// at `row_start`.
pub open spec fn element_start(row_start: int, field: FieldSpec, k: int) -> int {
    row_start + field.byte_offset + k * field.datatype.width()
}

/// Element `k` of `field` in the row that starts at `row_start`.
pub open spec fn field_element(bytes: Seq<u8>, row_start: int, field: FieldSpec, k: int) -> Value {
    let start = element_start(row_start, field, k);
    element_value(field.datatype, bytes.subrange(start, start + field.datatype.width()))
}

/// All elements of `field` in the row that starts at `row_start`.
pub open spec fn field_values(bytes: Seq<u8>, row_start: int, field: FieldSpec) -> Seq<Value> {
    Seq::new(field.count, |k: int| field_element(bytes, row_start, field, k))
}

/// The record of the row that starts at `row_start`: the elements of every
/// field, concatenated in field order.
pub open spec fn row_values(bytes: Seq<u8>, row_start: int, schema: Seq<FieldSpec>) -> Seq<Value>
    decreases schema.len(),
{
    if schema.len() == 0 {
        Seq::empty()
    } else {
        row_values(bytes, row_start, schema.drop_last()) + field_values(
            bytes,
            row_start,
            schema.last(),
        )
    }
}

/// Number of elements in every record of a schema.
pub open spec fn element_count(schema: Seq<FieldSpec>) -> nat
    decreases schema.len(),
{
    if schema.len() == 0 {
        0
    } else {
        element_count(schema.drop_last()) + schema.last().count
    }
}

/// Every element of `field`, read in the row that starts at `row_start`,
/// lies inside a buffer of `len` bytes. A field without elements reads
/// nothing.
pub open spec fn field_in_bounds(field: FieldSpec, row_start: int, len: int) -> bool {
    field.count > 0 ==> row_start + field.end() <= len
}

/// Every field of the row that starts at `row_start` lies inside a buffer of
/// `len` bytes.
pub open spec fn row_in_bounds(schema: Seq<FieldSpec>, row_start: int, len: int) -> bool {
    forall|i: int| 0 <= i < schema.len() ==> field_in_bounds(#[trigger] schema[i], row_start, len)
}

/// Field `i` of row `r` lies inside the frame's buffer.
pub open spec fn field_readable(frame: FrameSpec, r: int, i: int) -> bool {
    field_in_bounds(frame.schema[i], r * frame.row_stride, frame.bytes.len() as int)
}

/// No read that decoding performs leaves the frame's buffer.
pub open spec fn reads_in_bounds(frame: FrameSpec) -> bool {
    forall|r: int, i: int|
        0 <= r < frame.row_count && 0 <= i < frame.schema.len() ==> #[trigger] field_readable(
            frame,
            r,
            i,
        )
}

/// The records of all rows, in row order.
pub open spec fn decoded_rows(frame: FrameSpec) -> Seq<Seq<Value>> {
    Seq::new(
        frame.row_count,
        |r: int| row_values(frame.bytes, r * frame.row_stride, frame.schema),
    )
}

/// What decoding a frame yields: `UnsupportedEndianness` for a big-endian
/// frame, else `BufferTooShort` if any read would leave the buffer, else the
/// records of all rows.
pub open spec fn decode_spec(frame: FrameSpec) -> Result<Seq<Seq<Value>>, DecodeError> {
    if frame.is_big_endian {
        Err(DecodeError::UnsupportedEndianness)
    } else if !reads_in_bounds(frame) {
        Err(DecodeError::BufferTooShort)
    } else {
        Ok(decoded_rows(frame))
    }
}

/// Reads the element of type `datatype` that starts at `start`.
fn read_element(data: &[u8], start: usize, datatype: Datatype) -> (value: Value)
    requires
        start + datatype.width() <= data@.len(),
    ensures
        value == element_value(datatype, data@.subrange(start as int, start + datatype.width())),
{
    let size = datatype.size();
    assert(data@.len() == spec_slice_len(data));
    let window = &data[start..start + size];
    assert(window@.subrange(0, size as int) =~= window@);
    match datatype {
        Datatype::Int8 => {
            let byte = window[0];
            proof {
                reveal_with_fuel(le_value, 2);
            }
            if byte < 128 {
                Value::Int8(byte as i8)
            } else {
                Value::Int8((byte as i16 - 256) as i8)
            }
        },
        Datatype::Uint8 => {
            proof {
                reveal_with_fuel(le_value, 2);
            }
            Value::Uint8(window[0])
        },
        Datatype::Int16 => Value::Int16(read_i16_le(window)),
        Datatype::Uint16 => Value::Uint16(read_u16_le(window)),
        Datatype::Int32 => Value::Int32(read_i32_le(window)),
        Datatype::Uint32 => Value::Uint32(read_u32_le(window)),
        Datatype::Float32 => Value::Float32(read_u32_le(window)),
        Datatype::Float64 => Value::Float64(read_u64_le(window)),
    }
}

/// Appends the elements of `field`, read in the row that starts at
/// `row_start`, to `values`; reads nothing and appends nothing if any of them
/// lies outside `data`.
fn decode_field(
    data: &[u8],
    row_start: usize,
    field: &FieldDescriptor,
    values: &mut Vec<Value>,
) -> (ok: bool)
    requires
        row_start <= data@.len(),
    ensures
        ok == field_in_bounds(field@, row_start as int, data@.len() as int),
        ok ==> final(values)@ == old(values)@ + field_values(data@, row_start as int, field@),
        !ok ==> final(values)@ == old(values)@,
{
    let count = field.count;
    if count == 0 {
        assert(field_values(data@, row_start as int, field@) =~= Seq::<Value>::empty());
        assert(values@ + Seq::<Value>::empty() =~= values@);
        return true;
    }
    let len = data.len();
    let available: u64 = (len - row_start) as u64;
    if field.end() > available {
        return false;
    }
    let size = field.datatype.size();
    let first: usize = row_start + field.byte_offset as usize;
    let ghost spec_field = field@;
    let ghost before = values@;
    let mut k: u32 = 0;
    let mut start: usize = first;
    while k < count
        invariant
            k <= count,
            count == field.count,
            spec_field == field@,
            size == spec_field.datatype.width(),
            row_start + spec_field.end() <= data@.len(),
            data@.len() <= usize::MAX,
            start == element_start(row_start as int, spec_field, k as int),
            values@ == before + Seq::new(
                k as nat,
                |j: int| field_element(data@, row_start as int, spec_field, j),
            ),
        decreases count - k,
    {
        assert(start + size <= row_start + spec_field.end()) by (nonlinear_arith)
            requires
                start == row_start + spec_field.byte_offset + k * size,
                spec_field.end() == spec_field.byte_offset + count * size,
                k < count,
        ;
        let value = read_element(data, start, field.datatype);
        values.push(value);
        assert(values@ =~= before + Seq::new(
            (k + 1) as nat,
            |j: int| field_element(data@, row_start as int, spec_field, j),
        ));
        assert(start + size == element_start(row_start as int, spec_field, k + 1))
            by (nonlinear_arith)
            requires
                start == row_start + spec_field.byte_offset + k * size,
                size == spec_field.datatype.width(),
        ;
        k += 1;
        start += size;
    }
    true
}

/// Decodes the row that starts at `row_start`, or finds a field of it that
/// lies outside `data`.
fn decode_row(data: &[u8], row_start: usize, schema: &Schema) -> (r: Option<Record>)
    requires
        row_start <= data@.len(),
    ensures
        r is Some <==> row_in_bounds(schema@, row_start as int, data@.len() as int),
        r matches Some(record) ==> record@ == row_values(data@, row_start as int, schema@),
{
    let n = schema.fields.len();
    let ghost fields = schema@;
    let mut values: Vec<Value> = Vec::new();
    let mut i: usize = 0;
    assert(fields.take(0) =~= Seq::<FieldSpec>::empty());
    while i < n
        invariant
            i <= n,
            n == schema.fields@.len(),
            fields == schema@,
            row_start <= data@.len(),
            values@ == row_values(data@, row_start as int, fields.take(i as int)),
            forall|j: int|
                0 <= j < i ==> field_in_bounds(
                    #[trigger] fields[j],
                    row_start as int,
                    data@.len() as int,
                ),
        decreases n - i,
    {
        let ok = decode_field(data, row_start, &schema.fields[i], &mut values);
        if !ok {
            assert(!field_in_bounds(fields[i as int], row_start as int, data@.len() as int));
            return None;
        }
        proof {
            let longer = fields.take(i + 1);
            assert(longer.drop_last() =~= fields.take(i as int));
            assert(longer.last() == fields[i as int]);
        }
        i += 1;
    }
    assert(fields.take(n as int) =~= fields);
    Some(Record { values })
}

/// Decodes every row of `frame` into a record.
///
/// A big-endian frame is refused with `UnsupportedEndianness`, whatever else
/// it holds. Every read is checked against the raw buffer; if any element
/// that the schema names lies outside it, the result is `BufferTooShort`.
/// Otherwise there is exactly one record per row, in row order, and a frame
/// without rows yields no records. The frame and its buffer are only read.
pub fn decode_rows(frame: &Frame) -> (r: Result<Vec<Record>, DecodeError>)
    ensures
        r matches Ok(records) ==> decode_spec(frame@) == Ok::<Seq<Seq<Value>>, DecodeError>(
            records_view(records@),
        ),
        r matches Err(error) ==> decode_spec(frame@) == Err::<Seq<Seq<Value>>, DecodeError>(
            error,
        ),
        r is Ok <==> !frame@.is_big_endian && reads_in_bounds(frame@),
        frame@.is_big_endian ==> r matches Err(DecodeError::UnsupportedEndianness),
        r matches Ok(records) ==> records@.len() == frame@.row_count,
        r matches Ok(records) ==> frame@.bytes.len() == records@.len() * frame@.row_stride,
        r matches Ok(records) ==> forall|i: int|
            0 <= i < records@.len() ==> (#[trigger] records@[i])@ == row_values(
                frame@.bytes,
                i * frame@.row_stride,
                frame@.schema,
            ),
{
    if frame.is_big_endian() {
        return Err(DecodeError::UnsupportedEndianness);
    }
    let data = frame.raw_bytes();
    let schema = frame.schema();
    let stride = frame.row_stride();
    let rows = frame.row_count();
    let ghost spec_frame = frame@;
    assert(data@.len() == spec_slice_len(data));
    let mut records: Vec<Record> = Vec::new();
    let mut r: usize = 0;
    let mut row_start: usize = 0;
    while r < rows
        invariant
            r <= rows,
            spec_frame == frame@,
            !spec_frame.is_big_endian,
            data@.len() <= usize::MAX,
            spec_frame.wf(),
            spec_frame.schema == schema@,
            spec_frame.bytes == data@,
            spec_frame.row_stride == stride,
            spec_frame.row_count == rows,
            row_start == r * stride,
            row_start <= data@.len(),
            records@.len() == r,
            forall|j: int|
                0 <= j < r ==> (#[trigger] records@[j])@ == row_values(
                    data@,
                    j * stride,
                    schema@,
                ),
            forall|j: int, i: int|
                0 <= j < r && 0 <= i < schema@.len() ==> #[trigger] field_readable(
                    spec_frame,
                    j,
                    i,
                ),
        decreases rows - r,
    {
        match decode_row(data, row_start, schema) {
            None => {
                proof {
                    let i = choose|i: int|
                        0 <= i < schema@.len() && !field_in_bounds(
                            #[trigger] schema@[i],
                            row_start as int,
                            data@.len() as int,
                        );
                    assert(!field_readable(spec_frame, r as int, i));
                }
                return Err(DecodeError::BufferTooShort);
            },
            Some(record) => {
                records.push(record);
            },
        }
        proof {
            assert forall|i: int| 0 <= i < schema@.len() implies #[trigger] field_readable(
                spec_frame,
                r as int,
                i,
            ) by {
                assert(field_in_bounds(schema@[i], row_start as int, data@.len() as int));
            }
            assert((r + 1) * stride == r * stride + stride) by (nonlinear_arith);
            assert((r + 1) * stride <= rows * stride) by (nonlinear_arith)
                requires
                    r < rows,
                    stride >= 0,
            ;
        }
        r += 1;
        row_start += stride;
    }
    assert(records_view(records@) =~= decoded_rows(spec_frame));
    Ok(records)
}

/// What validating a frame's schema against `expected` and then decoding
/// its rows yields: the schema's error, else the decoder's error, else the
/// records of all rows.
pub open spec fn decode_frame_spec(frame: FrameSpec, expected: Seq<FieldSpec>) -> Result<
    Seq<Seq<Value>>,
    FrameError,
> {
    match validate_spec(frame.schema, expected) {
        Err(error) => Err(FrameError::Schema(error)),
        Ok(_) => match decode_spec(frame) {
            Err(error) => Err(FrameError::Decode(error)),
            Ok(rows) => Ok(rows),
        },
    }
}

/// Decodes every row of `frame` after checking that the frame announces
/// exactly the schema `expected`.
///
/// A frame with another schema is rejected with the schema's first
/// violation before any byte is read; a frame with the expected schema
/// decodes as `decode_rows` says.
pub fn decode_frame(frame: &Frame, expected: &Schema) -> (r: Result<Vec<Record>, FrameError>)
    ensures
        r matches Ok(records) ==> decode_frame_spec(frame@, expected@) == Ok::<
            Seq<Seq<Value>>,
            FrameError,
        >(records_view(records@)),
        r matches Err(error) ==> decode_frame_spec(frame@, expected@) == Err::<
            Seq<Seq<Value>>,
            FrameError,
        >(error),
        r is Ok <==> frame@.schema == expected@ && !frame@.is_big_endian && reads_in_bounds(
            frame@,
        ),
        r matches Ok(records) ==> records@.len() == frame@.row_count,
{
    if let Err(error) = validate(frame.schema(), expected) {
        return Err(FrameError::Schema(error));
    }
    match decode_rows(frame) {
        Ok(records) => Ok(records),
        Err(error) => Err(FrameError::Decode(error)),
    }
}

/// Every record of a schema holds as many elements as the counts of the
/// schema's fields add up to, wherever its row starts.
pub proof fn lemma_record_has_fixed_shape(bytes: Seq<u8>, row_start: int, schema: Seq<FieldSpec>)
    ensures
        row_values(bytes, row_start, schema).len() == element_count(schema),
    decreases schema.len(),
{
    if schema.len() > 0 {
        lemma_record_has_fixed_shape(bytes, row_start, schema.drop_last());
    }
}

/// No read leaves the buffer of a frame whose schema fits its stride.
pub proof fn lemma_fitting_schema_reads_in_bounds(frame: FrameSpec)
    requires
        frame.wf(),
        fits_stride(frame.schema, frame.row_stride),
    ensures
        reads_in_bounds(frame),
{
    assert forall|r: int, i: int|
        0 <= r < frame.row_count && 0 <= i < frame.schema.len() implies #[trigger] field_readable(
        frame,
        r,
        i,
    ) by {
        let stride = frame.row_stride as int;
        let rows = frame.row_count as int;
        assert(frame.schema[i].end() <= stride);
        assert(r * stride + stride <= rows * stride) by (nonlinear_arith)
            requires
                0 <= r < rows,
                stride >= 0,
        ;
    }
}

/// A buffer of `k` rows makes a frame of `k` rows, and whenever that frame
/// decodes, it decodes into exactly `k` records of the schema's shape. It
/// does decode if it is little-endian and its schema fits the stride.
pub proof fn lemma_decode_yields_one_record_per_row(
    schema: Seq<FieldSpec>,
    bytes: Seq<u8>,
    row_stride: nat,
    k: nat,
    is_big_endian: bool,
)
    requires
        row_stride > 0,
        bytes.len() == k * row_stride,
    ensures
        frame_spec(schema, bytes, row_stride, is_big_endian) matches Ok(frame) && ({
            &&& frame.wf()
            &&& frame.row_count == k
            &&& decode_spec(frame) matches Ok(rows) ==> rows.len() == k
            &&& decode_spec(frame) matches Ok(rows) ==> forall|r: int|
                0 <= r < k ==> (#[trigger] rows[r]).len() == element_count(schema)
            &&& !is_big_endian && fits_stride(schema, row_stride) ==> decode_spec(frame) is Ok
        }),
{
    lemma_mod_multiples_basic(k as int, row_stride as int);
    lemma_div_multiples_vanish(k as int, row_stride as int);
    assert(k * row_stride == row_stride * k) by (nonlinear_arith);
    let frame = frame_spec(schema, bytes, row_stride, is_big_endian)->Ok_0;
    assert(frame.row_count == k);
    if decode_spec(frame) is Ok {
        let rows = decode_spec(frame)->Ok_0;
        assert forall|r: int| 0 <= r < k implies (#[trigger] rows[r]).len() == element_count(
            schema,
        ) by {
            lemma_record_has_fixed_shape(bytes, r * row_stride, schema);
        }
    }
    if !is_big_endian && fits_stride(schema, row_stride) {
        lemma_fitting_schema_reads_in_bounds(frame);
    }
}

/// A big-endian frame never decodes: the result is `UnsupportedEndianness`
/// whatever its schema, stride and bytes are.
pub proof fn lemma_big_endian_is_refused(frame: FrameSpec)
    requires
        frame.is_big_endian,
    ensures
        decode_spec(frame) == Err::<Seq<Seq<Value>>, DecodeError>(
            DecodeError::UnsupportedEndianness,
        ),
{
}

/// Decoding depends on nothing but the frame's content: two frames with the
/// same schema, bytes, stride, row count and endianness tag yield the same
/// result, element for element.
pub proof fn lemma_decode_is_deterministic(a: FrameSpec, b: FrameSpec)
    requires
        a.schema =~= b.schema,
        a.bytes =~= b.bytes,
        a.row_stride == b.row_stride,
        a.row_count == b.row_count,
        a.is_big_endian == b.is_big_endian,
    ensures
        decode_spec(a) == decode_spec(b),
{
}

} // verus!
