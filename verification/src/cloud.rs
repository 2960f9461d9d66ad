//! Cartesian point-cloud messages: the fixed four-field layout of a point and
//! the decoding of a received message into points.

use crate::decode::{
    decode_frame, decode_frame_spec, decoded_rows, field_element, field_readable, field_values,
    lemma_fitting_schema_reads_in_bounds, reads_in_bounds, records_view, row_values, Record,
    Value,
};
use crate::endian::le_value;
use crate::frame::{frame_spec, Frame, FrameSpec};
use crate::schema::{fits_stride, well_formed, Datatype, FieldDescriptor, FieldSpec, Schema};
use crate::status::{DecodeError, FrameError};
use vstd::arithmetic::div_mod::lemma_fundamental_div_mod;
use vstd::prelude::*;
use vstd::utf8::is_ascii_chars;

verus! {

/// One point of a Cartesian cloud. Every coordinate and the intensity hold
/// the bit pattern of an IEEE-754 single-precision number, exactly as it
/// stood in the frame.
#[derive(Debug, Clone, Copy, PartialEq, Eq, Structural)]
pub struct CartesianPoint {
    pub x: u32,
    pub y: u32,
    pub z: u32,
    pub intensity: u32,
}

/// One point-cloud message as the driver delivered it: the field descriptors
/// it announced, its endianness tag, the byte length of one point, and the
/// borrowed bytes of all points.
#[derive(Debug, Clone)]
pub enum CloudMessage<'a> {
    Cartesian { fields: Schema, is_big_endian: bool, point_step: u32, data: &'a [u8] },
}

/// The layout of a Cartesian point: `x`, `y`, `z` and `intensity`, one
/// 32-bit float each, packed from offset 0.
pub open spec fn cartesian_fields() -> Seq<FieldSpec> {
    seq![
        FieldSpec { name: "x"@, byte_offset: 0, datatype: Datatype::Float32, count: 1 },
        FieldSpec { name: "y"@, byte_offset: 4, datatype: Datatype::Float32, count: 1 },
        FieldSpec { name: "z"@, byte_offset: 8, datatype: Datatype::Float32, count: 1 },
        FieldSpec { name: "intensity"@, byte_offset: 12, datatype: Datatype::Float32, count: 1 },
    ]
}

/// The point whose sixteen bytes start at `row_start`.
pub open spec fn cartesian_point(bytes: Seq<u8>, row_start: int) -> CartesianPoint {
    CartesianPoint {
        x: le_value(bytes.subrange(row_start, row_start + 4)) as u32,
        y: le_value(bytes.subrange(row_start + 4, row_start + 8)) as u32,
        z: le_value(bytes.subrange(row_start + 8, row_start + 12)) as u32,
        intensity: le_value(bytes.subrange(row_start + 12, row_start + 16)) as u32,
    }
}

/// The point that a record of exactly four 32-bit floats stands for.
pub open spec fn point_of_values(values: Seq<Value>) -> Option<CartesianPoint> {
    if values.len() == 4 {
        match (values[0], values[1], values[2], values[3]) {
            (
                Value::Float32(x),
                Value::Float32(y),
                Value::Float32(z),
                Value::Float32(intensity),
            ) => Some(CartesianPoint { x, y, z, intensity }),
            _ => None,
        }
    } else {
        None
    }
}

/// What reading the points of a message yields. The message is framed,
/// then its schema validated, then its rows decoded; the first step that
/// fails gives the error.
pub open spec fn cartesian_points_spec(
    fields: Seq<FieldSpec>,
    bytes: Seq<u8>,
    point_step: nat,
    is_big_endian: bool,
) -> Result<Seq<CartesianPoint>, FrameError> {
    match frame_spec(fields, bytes, point_step, is_big_endian) {
        Err(error) => Err(FrameError::Decode(error)),
        Ok(frame) => match decode_frame_spec(frame, cartesian_fields()) {
            Err(error) => Err(error),
            Ok(_) => Ok(
                Seq::new(frame.row_count, |r: int| cartesian_point(bytes, r * point_step)),
            ),
        },
    }
}

/// A row of the Cartesian layout decodes into the four floats of its point.
pub proof fn lemma_cartesian_row_is_its_point(bytes: Seq<u8>, row_start: int)
    ensures
        point_of_values(row_values(bytes, row_start, cartesian_fields())) == Some(
            cartesian_point(bytes, row_start),
        ),
{
    let fields = cartesian_fields();
    let f3 = fields.drop_last();
    let f2 = f3.drop_last();
    let f1 = f2.drop_last();
    let f0 = f1.drop_last();
    assert(f0.len() == 0);
    let r1 = row_values(bytes, row_start, f1);
    let r2 = row_values(bytes, row_start, f2);
    let r3 = row_values(bytes, row_start, f3);
    let r4 = row_values(bytes, row_start, fields);
    assert(row_values(bytes, row_start, f0) =~= Seq::<Value>::empty());
    assert(r1 =~= seq![field_element(bytes, row_start, fields[0], 0)]) by {
        assert(f1.last() == fields[0]);
        assert(field_values(bytes, row_start, fields[0]).len() == 1);
    }
    assert(r2 =~= r1 + seq![field_element(bytes, row_start, fields[1], 0)]) by {
        assert(f2.last() == fields[1]);
        assert(field_values(bytes, row_start, fields[1]).len() == 1);
    }
    assert(r3 =~= r2 + seq![field_element(bytes, row_start, fields[2], 0)]) by {
        assert(f3.last() == fields[2]);
        assert(field_values(bytes, row_start, fields[2]).len() == 1);
    }
    assert(r4 =~= r3 + seq![field_element(bytes, row_start, fields[3], 0)]) by {
        assert(fields.last() == fields[3]);
        assert(field_values(bytes, row_start, fields[3]).len() == 1);
    }
    assert(r4.len() == 4);
    assert(r4[0] == field_element(bytes, row_start, fields[0], 0));
    assert(r4[1] == field_element(bytes, row_start, fields[1], 0));
    assert(r4[2] == field_element(bytes, row_start, fields[2], 0));
    assert(r4[3] == field_element(bytes, row_start, fields[3], 0));
}

/// The Cartesian layout is well-formed and fits exactly the strides of at
/// least sixteen bytes.
pub proof fn lemma_cartesian_layout_is_sixteen_bytes_wide(stride: nat)
    ensures
        well_formed(cartesian_fields()),
        fits_stride(cartesian_fields(), stride) <==> stride >= 16,
{
    let fields = cartesian_fields();
    reveal_strlit("x");
    reveal_strlit("y");
    reveal_strlit("z");
    reveal_strlit("intensity");
    assert(is_ascii_chars(fields[0].name));
    assert(is_ascii_chars(fields[1].name));
    assert(is_ascii_chars(fields[2].name));
    assert(is_ascii_chars(fields[3].name));
    lemma_cartesian_field_ends();
}

/// Field `i` of the Cartesian layout occupies bytes `4 * i` to `4 * i + 4`.
proof fn lemma_cartesian_field_ends()
    ensures
        forall|i: int|
            0 <= i < 4 ==> (#[trigger] cartesian_fields()[i]).byte_offset == 4 * i
                && cartesian_fields()[i].end() == 4 * i + 4,
{
    let fields = cartesian_fields();
    assert forall|i: int| 0 <= i < 4 implies (#[trigger] fields[i]).byte_offset == 4 * i
        && fields[i].end() == 4 * i + 4 by {
        let field = fields[i];
        assert(field.byte_offset == 4 * i && field.count == 1 && field.datatype.width() == 4);
        assert(field.count * field.datatype.width() == 4) by (nonlinear_arith)
            requires
                field.count == 1,
                field.datatype.width() == 4,
        ;
    }
}

/// A message is sound if it divides into whole points, announces the
/// Cartesian layout, is little-endian, and either holds no point or gives
/// every point at least sixteen bytes.
pub open spec fn message_is_sound(
    fields: Seq<FieldSpec>,
    bytes: Seq<u8>,
    point_step: nat,
    is_big_endian: bool,
) -> bool {
    &&& point_step > 0
    &&& bytes.len() % point_step == 0
    &&& fields == cartesian_fields()
    &&& !is_big_endian
    &&& (bytes.len() == 0 || point_step >= 16)
}

/// The points of a message are read exactly when the message is sound.
/// There is then one point for every `point_step` bytes.
pub proof fn lemma_points_are_read_iff_message_is_sound(
    fields: Seq<FieldSpec>,
    bytes: Seq<u8>,
    point_step: nat,
    is_big_endian: bool,
)
    ensures
        cartesian_points_spec(fields, bytes, point_step, is_big_endian) is Ok <==> message_is_sound(
            fields,
            bytes,
            point_step,
            is_big_endian,
        ),
        cartesian_points_spec(fields, bytes, point_step, is_big_endian) matches Ok(points)
            ==> points.len() == bytes.len() / point_step,
{
    if point_step > 0 && bytes.len() % point_step == 0 {
        let frame = frame_spec(fields, bytes, point_step, is_big_endian)->Ok_0;
        let rows = frame.row_count as int;
        let step = point_step as int;
        lemma_fundamental_div_mod(bytes.len() as int, step);
        assert(rows * step == step * rows) by (nonlinear_arith);
        assert(frame.wf());
        lemma_cartesian_layout_is_sixteen_bytes_wide(point_step);
        if fields == cartesian_fields() && !is_big_endian {
            if reads_in_bounds(frame) && bytes.len() > 0 {
                assert(rows >= 1) by (nonlinear_arith)
                    requires
                        rows * step > 0,
                        rows >= 0,
                        step > 0,
                ;
                lemma_cartesian_field_ends();
                let last = cartesian_fields()[3];
                assert(frame.schema[3] == last);
                assert(last.end() == 16);
                assert(field_readable(frame, rows - 1, 3));
                assert((rows - 1) * step == rows * step - step) by (nonlinear_arith);
            }
            if bytes.len() == 0 {
                assert(rows == 0) by (nonlinear_arith)
                    requires
                        rows * step == 0,
                        step > 0,
                ;
            }
            if point_step >= 16 {
                lemma_fitting_schema_reads_in_bounds(frame);
            }
        }
    }
}

/// The expected schema of a Cartesian point cloud.
pub fn cartesian_schema() -> (schema: Schema)
    ensures
        schema@ == cartesian_fields(),
{
    let mut fields: Vec<FieldDescriptor> = Vec::new();
    fields.push(FieldDescriptor::new("x", 0, Datatype::Float32, 1));
    fields.push(FieldDescriptor::new("y", 4, Datatype::Float32, 1));
    fields.push(FieldDescriptor::new("z", 8, Datatype::Float32, 1));
    fields.push(FieldDescriptor::new("intensity", 12, Datatype::Float32, 1));
    let schema = Schema::new(fields);
    assert(schema@ =~= cartesian_fields());
    schema
}

impl CartesianPoint {
    /// The point that `record` stands for, if it holds exactly four 32-bit
    /// floats.
    pub fn from_record(record: &Record) -> (point: Option<CartesianPoint>)
        ensures
            point == point_of_values(record@),
    {
        if record.values.len() != 4 {
            return None;
        }
        match (record.values[0], record.values[1], record.values[2], record.values[3]) {
            (
                Value::Float32(x),
                Value::Float32(y),
                Value::Float32(z),
                Value::Float32(intensity),
            ) => Some(CartesianPoint { x, y, z, intensity }),
            _ => None,
        }
    }
}

impl<'a> CloudMessage<'a> {
    /// The field descriptors that the message announced.
    pub open spec fn spec_fields(&self) -> Seq<FieldSpec> {
        match self {
            CloudMessage::Cartesian { fields, .. } => fields@,
        }
    }

    /// The bytes of all points.
    pub open spec fn spec_data(&self) -> Seq<u8> {
        match self {
            CloudMessage::Cartesian { data, .. } => data@,
        }
    }

    /// The byte length of one point.
    pub open spec fn spec_point_step(&self) -> nat {
        match self {
            CloudMessage::Cartesian { point_step, .. } => *point_step as nat,
        }
    }

    /// The endianness tag.
    pub open spec fn spec_is_big_endian(&self) -> bool {
        match self {
            CloudMessage::Cartesian { is_big_endian, .. } => *is_big_endian,
        }
    }

    /// The frame that the message's buffers and layout make.
    pub open spec fn spec_frame(&self) -> Result<FrameSpec, DecodeError> {
        frame_spec(
            self.spec_fields(),
            self.spec_data(),
            self.spec_point_step(),
            self.spec_is_big_endian(),
        )
    }

    /// Whether the message can be read as Cartesian points.
    pub open spec fn spec_is_sound(&self) -> bool {
        message_is_sound(
            self.spec_fields(),
            self.spec_data(),
            self.spec_point_step(),
            self.spec_is_big_endian(),
        )
    }

    /// What `get_data` yields for this message.
    pub open spec fn spec_points(&self) -> Result<Seq<CartesianPoint>, FrameError> {
        cartesian_points_spec(
            self.spec_fields(),
            self.spec_data(),
            self.spec_point_step(),
            self.spec_is_big_endian(),
        )
    }

    /// The frame that the message's buffers and layout make.
    pub fn frame(&self) -> (r: Result<Frame<'_>, DecodeError>)
        ensures
            r matches Ok(frame) ==> self.spec_frame() == Ok::<FrameSpec, DecodeError>(frame@),
            r matches Err(error) ==> self.spec_frame() == Err::<FrameSpec, DecodeError>(error),
    {
        match self {
            CloudMessage::Cartesian { fields, is_big_endian, point_step, data } => Frame::new(
                fields,
                data,
                *point_step as usize,
                *is_big_endian,
            ),
        }
    }

    /// Decodes the message into its points, in the order of the rows.
    ///
    /// The message must divide into whole points, announce exactly the
    /// Cartesian layout, and be little-endian with every point inside the
    /// buffer; the first of these that fails is reported, and nothing is
    /// decoded then.
    pub fn get_data(&self) -> (r: Result<Vec<CartesianPoint>, FrameError>)
        ensures
            r matches Ok(points) ==> self.spec_points() == Ok::<Seq<CartesianPoint>, FrameError>(
                points@,
            ),
            r matches Err(error) ==> self.spec_points() == Err::<Seq<CartesianPoint>, FrameError>(
                error,
            ),
            r is Ok <==> self.spec_is_sound(),
            r matches Ok(points) ==> points@.len() == self.spec_data().len()
                / self.spec_point_step(),
            r matches Ok(points) ==> forall|i: int|
                0 <= i < points@.len() ==> #[trigger] points@[i] == cartesian_point(
                    self.spec_data(),
                    i * self.spec_point_step(),
                ),
    {
        proof {
            lemma_points_are_read_iff_message_is_sound(
                self.spec_fields(),
                self.spec_data(),
                self.spec_point_step(),
                self.spec_is_big_endian(),
            );
        }
        let frame = match self.frame() {
            Ok(frame) => frame,
            Err(error) => {
                return Err(FrameError::Decode(error));
            },
        };
        let records = match decode_frame(&frame, &cartesian_schema()) {
            Ok(records) => records,
            Err(error) => {
                return Err(error);
            },
        };
        let ghost bytes = self.spec_data();
        let ghost step = self.spec_point_step();
        let ghost rows = decoded_rows(frame@);
        let n = records.len();
        proof {
            assert(rows.len() == n);
            assert(rows =~= Seq::new(
                n as nat,
                |r: int| row_values(bytes, r * step, cartesian_fields()),
            ));
        }
        let mut points: Vec<CartesianPoint> = Vec::new();
        let mut i: usize = 0;
        while i < n
            invariant
                i <= n,
                n == records@.len(),
                rows == records_view(records@),
                rows == Seq::new(
                    n as nat,
                    |r: int| row_values(bytes, r * step, cartesian_fields()),
                ),
                points@.len() == i,
                forall|j: int| 0 <= j < i ==> points@[j] == cartesian_point(bytes, j * step),
            decreases n - i,
        {
            proof {
                lemma_cartesian_row_is_its_point(bytes, i * step);
                assert(rows[i as int] == records@[i as int]@);
            }
            if let Some(point) = CartesianPoint::from_record(&records[i]) {
                points.push(point);
            }
            i += 1;
        }
        assert(points@ =~= Seq::new(n as nat, |r: int| cartesian_point(bytes, r * step)));
        Ok(points)
    }
}

} // verus!
