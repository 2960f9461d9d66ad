//! The frame buffer: a borrowed view of one received frame, cut into rows.

use crate::schema::{FieldSpec, Schema};
use crate::status::DecodeError;
use vstd::arithmetic::div_mod::lemma_fundamental_div_mod;
use vstd::prelude::*;

verus! {

/// Mathematical content of a frame.
pub struct FrameSpec {
    pub schema: Seq<FieldSpec>,
    pub bytes: Seq<u8>,
    pub row_stride: nat,
    pub row_count: nat,
    pub is_big_endian: bool,
}

impl FrameSpec {
    /// The rows cover the buffer exactly: the stride is positive and
    /// `row_count` rows of `row_stride` bytes are all the bytes there are.
    pub open spec fn wf(self) -> bool {
        &&& self.row_stride > 0
        &&& self.row_count * self.row_stride == self.bytes.len()
    }
}

/// What building a frame from the driver's tuple yields: the frame with
/// `bytes.len() / row_stride` rows, or `InvalidStride` where the stride is
/// zero or leaves a partial trailing row.
pub open spec fn frame_spec(
    schema: Seq<FieldSpec>,
    bytes: Seq<u8>,
    row_stride: nat,
    is_big_endian: bool,
) -> Result<FrameSpec, DecodeError> {
    if row_stride == 0 || bytes.len() % row_stride != 0 {
        Err(DecodeError::InvalidStride)
    } else {
        Ok(
            FrameSpec {
                schema,
                bytes,
                row_stride,
                row_count: bytes.len() / row_stride,
                is_big_endian,
            },
        )
    }
}

/// One received frame: the schema and raw bytes that the driver lent for one
/// acquisition cycle, with the rows the bytes divide into.
///
/// The frame borrows both; it copies nothing and cannot outlive them.
#[derive(Debug, Clone, Copy)]
pub struct Frame<'a> {
    schema: &'a Schema,
    raw_bytes: &'a [u8],
    row_stride: usize,
    row_count: usize,
    is_big_endian: bool,
}

impl<'a> View for Frame<'a> {
    type V = FrameSpec;

    closed spec fn view(&self) -> FrameSpec {
        FrameSpec {
            schema: self.schema@,
            bytes: self.raw_bytes@,
            row_stride: self.row_stride as nat,
            row_count: self.row_count as nat,
            is_big_endian: self.is_big_endian,
        }
    }
}

impl<'a> Frame<'a> {
    #[verifier::type_invariant]
    spec fn rows_cover_buffer(self) -> bool {
        self@.wf()
    }

    /// Builds the frame for the buffers and layout that the driver supplied.
    ///
    /// Fails with `InvalidStride` if `row_stride` is zero or `raw_bytes` is
    /// not a whole number of rows; a partial trailing row is never dropped
    /// silently.
    pub fn new(
        schema: &'a Schema,
        raw_bytes: &'a [u8],
        row_stride: usize,
        is_big_endian: bool,
    ) -> (r: Result<Frame<'a>, DecodeError>)
        ensures
            r is Err <==> row_stride == 0 || raw_bytes@.len() % (row_stride as nat) != 0,
            r matches Err(error) ==> error == DecodeError::InvalidStride,
            r matches Ok(frame) ==> frame_spec(
                schema@,
                raw_bytes@,
                row_stride as nat,
                is_big_endian,
            ) == Ok::<FrameSpec, DecodeError>(frame@),
    {
        if row_stride == 0 || raw_bytes.len() % row_stride != 0 {
            return Err(DecodeError::InvalidStride);
        }
        let row_count = raw_bytes.len() / row_stride;
        proof {
            lemma_fundamental_div_mod(raw_bytes@.len() as int, row_stride as int);
            assert(row_count * row_stride == row_stride * row_count) by (nonlinear_arith);
        }
        Ok(Frame { schema, raw_bytes, row_stride, row_count, is_big_endian })
    }

    /// The schema that describes every row.
    pub fn schema(&self) -> (schema: &'a Schema)
        ensures
            schema@ == self@.schema,
            self@.wf(),
    {
        proof {
            use_type_invariant(self);
        }
        self.schema
    }

    /// The raw bytes of all rows.
    pub fn raw_bytes(&self) -> (bytes: &'a [u8])
        ensures
            bytes@ == self@.bytes,
            self@.wf(),
    {
        proof {
            use_type_invariant(self);
        }
        self.raw_bytes
    }

    /// Number of bytes from the start of one row to the start of the next.
    pub fn row_stride(&self) -> (stride: usize)
        ensures
            stride == self@.row_stride,
            self@.wf(),
    {
        proof {
            use_type_invariant(self);
        }
        self.row_stride
    }

    /// Number of rows in the frame.
    pub fn row_count(&self) -> (count: usize)
        ensures
            count == self@.row_count,
            self@.wf(),
    {
        proof {
            use_type_invariant(self);
        }
        self.row_count
    }

    /// Whether the frame is tagged as holding big-endian numbers.
    pub fn is_big_endian(&self) -> (flag: bool)
        ensures
            flag == self@.is_big_endian,
            self@.wf(),
    {
        proof {
            use_type_invariant(self);
        }
        self.is_big_endian
    }
}

} // verus!
