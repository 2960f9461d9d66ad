use sick_scan_xd::{
    cartesian_schema, decode_rows, Datatype, DecodeError, FieldDescriptor, Frame, Record, Schema,
    Value,
};

fn floats(values: &[f32]) -> Vec<u8> {
    let mut bytes = Vec::new();
    for value in values {
        bytes.extend_from_slice(&value.to_le_bytes());
    }
    bytes
}

fn record(values: Vec<Value>) -> Record {
    Record { values }
}

#[test]
fn frame_new_counts_whole_rows() {
    let schema = cartesian_schema();
    let data = vec![0u8; 48];
    let frame = Frame::new(&schema, &data, 16, false).unwrap();
    assert_eq!(frame.row_count(), 3);
    assert_eq!(frame.row_stride(), 16);
    assert!(!frame.is_big_endian());
    assert_eq!(frame.raw_bytes(), &data[..]);
    assert_eq!(frame.schema(), &schema);
}

#[test]
fn frame_new_accepts_an_empty_buffer() {
    let schema = cartesian_schema();
    let data: Vec<u8> = vec![];
    let frame = Frame::new(&schema, &data, 16, false).unwrap();
    assert_eq!(frame.row_count(), 0);
}

#[test]
fn frame_new_keeps_the_endianness_tag() {
    let schema = cartesian_schema();
    let data = vec![0u8; 16];
    let frame = Frame::new(&schema, &data, 16, true).unwrap();
    assert!(frame.is_big_endian());
    assert_eq!(frame.row_count(), 1);
}

#[test]
fn frame_new_rejects_a_zero_stride() {
    let schema = cartesian_schema();
    let data = vec![0u8; 16];
    assert_eq!(Frame::new(&schema, &data, 0, false).err(), Some(DecodeError::InvalidStride));
    let empty: Vec<u8> = vec![];
    assert_eq!(Frame::new(&schema, &empty, 0, false).err(), Some(DecodeError::InvalidStride));
}

#[test]
fn frame_new_rejects_a_partial_trailing_row() {
    let schema = cartesian_schema();
    for len in [1usize, 15, 17, 31, 33] {
        let data = vec![0u8; len];
        assert_eq!(
            Frame::new(&schema, &data, 16, false).err(),
            Some(DecodeError::InvalidStride)
        );
    }
}

#[test]
fn frame_new_rejects_a_stride_longer_than_the_buffer() {
    let schema = cartesian_schema();
    let data = vec![0u8; 8];
    assert_eq!(Frame::new(&schema, &data, 16, false).err(), Some(DecodeError::InvalidStride));
}

#[test]
fn decode_rows_two_cartesian_rows() {
    let schema = Schema::new(vec![
        FieldDescriptor::new("x", 0, Datatype::Float32, 1),
        FieldDescriptor::new("y", 4, Datatype::Float32, 1),
        FieldDescriptor::new("z", 8, Datatype::Float32, 1),
        FieldDescriptor::new("intensity", 12, Datatype::Float32, 1),
    ]);
    let data = floats(&[1.0, 2.0, 3.0, 4.0, 5.0, 6.0, 7.0, 8.0]);
    assert_eq!(data.len(), 32);
    let frame = Frame::new(&schema, &data, 16, false).unwrap();
    let records = decode_rows(&frame).unwrap();
    assert_eq!(records.len(), 2);
    let as_floats: Vec<Vec<f32>> = records
        .iter()
        .map(|record| {
            record
                .values
                .iter()
                .map(|value| match value {
                    Value::Float32(bits) => f32::from_bits(*bits),
                    other => panic!("expected a 32-bit float, got {:?}", other),
                })
                .collect()
        })
        .collect();
    assert_eq!(as_floats, vec![vec![1.0, 2.0, 3.0, 4.0], vec![5.0, 6.0, 7.0, 8.0]]);
    assert_eq!(records[0].values[0], Value::Float32(0x3f80_0000));
    assert_eq!(records[1].values[3], Value::Float32(0x4100_0000));
}

#[test]
fn decode_rows_yields_one_record_per_row() {
    let schema = cartesian_schema();
    for k in [0usize, 1, 2, 5, 64] {
        let data = vec![0u8; k * 16];
        let frame = Frame::new(&schema, &data, 16, false).unwrap();
        let records = decode_rows(&frame).unwrap();
        assert_eq!(records.len(), k);
        for row in &records {
            assert_eq!(row.values, vec![Value::Float32(0); 4]);
        }
    }
}

#[test]
fn decode_rows_of_a_frame_without_rows_is_empty() {
    let schema = cartesian_schema();
    let data: Vec<u8> = vec![];
    let frame = Frame::new(&schema, &data, 16, false).unwrap();
    assert_eq!(decode_rows(&frame), Ok(vec![]));
}

#[test]
fn decode_rows_skips_padding_between_rows() {
    let schema = Schema::new(vec![FieldDescriptor::new("id", 2, Datatype::Uint16, 1)]);
    let data = vec![0xaa, 0xaa, 0x01, 0x02, 0xaa, 0xaa, 0xbb, 0xbb, 0x03, 0x04, 0xbb, 0xbb];
    let frame = Frame::new(&schema, &data, 6, false).unwrap();
    assert_eq!(
        decode_rows(&frame),
        Ok(vec![record(vec![Value::Uint16(0x0201)]), record(vec![Value::Uint16(0x0403)])])
    );
}

#[test]
fn decode_rows_reads_every_datatype_little_endian() {
    let schema = Schema::new(vec![
        FieldDescriptor::new("i8", 0, Datatype::Int8, 1),
        FieldDescriptor::new("u8", 1, Datatype::Uint8, 1),
        FieldDescriptor::new("i16", 2, Datatype::Int16, 1),
        FieldDescriptor::new("u16", 4, Datatype::Uint16, 1),
        FieldDescriptor::new("i32", 6, Datatype::Int32, 1),
        FieldDescriptor::new("u32", 10, Datatype::Uint32, 1),
        FieldDescriptor::new("f32", 14, Datatype::Float32, 1),
        FieldDescriptor::new("f64", 18, Datatype::Float64, 1),
    ]);
    let mut data = Vec::new();
    data.extend_from_slice(&(-2i8).to_le_bytes());
    data.extend_from_slice(&200u8.to_le_bytes());
    data.extend_from_slice(&(-1000i16).to_le_bytes());
    data.extend_from_slice(&0xfffeu16.to_le_bytes());
    data.extend_from_slice(&(-1_000_000i32).to_le_bytes());
    data.extend_from_slice(&0xdead_beefu32.to_le_bytes());
    data.extend_from_slice(&(-1.5f32).to_le_bytes());
    data.extend_from_slice(&(1.6180339887f64).to_le_bytes());
    assert_eq!(data.len(), 26);
    let frame = Frame::new(&schema, &data, 26, false).unwrap();
    assert_eq!(
        decode_rows(&frame),
        Ok(vec![record(vec![
            Value::Int8(-2),
            Value::Uint8(200),
            Value::Int16(-1000),
            Value::Uint16(0xfffe),
            Value::Int32(-1_000_000),
            Value::Uint32(0xdead_beef),
            Value::Float32((-1.5f32).to_bits()),
            Value::Float64((1.6180339887f64).to_bits()),
        ])])
    );
}

#[test]
fn decode_rows_byte_order_is_least_significant_first() {
    let schema = Schema::new(vec![
        FieldDescriptor::new("a", 0, Datatype::Uint16, 1),
        FieldDescriptor::new("b", 2, Datatype::Uint32, 1),
        FieldDescriptor::new("c", 6, Datatype::Float64, 1),
    ]);
    let data = vec![
        0x01, 0x02, 0x03, 0x04, 0x05, 0x06, 0x07, 0x08, 0x09, 0x0a, 0x0b, 0x0c, 0x0d, 0x0e,
    ];
    let frame = Frame::new(&schema, &data, 14, false).unwrap();
    assert_eq!(
        decode_rows(&frame),
        Ok(vec![record(vec![
            Value::Uint16(0x0201),
            Value::Uint32(0x0605_0403),
            Value::Float64(0x0e0d_0c0b_0a09_0807),
        ])])
    );
}

#[test]
fn decode_rows_signed_extremes() {
    let schema = Schema::new(vec![
        FieldDescriptor::new("a", 0, Datatype::Int8, 4),
        FieldDescriptor::new("b", 4, Datatype::Int16, 4),
        FieldDescriptor::new("c", 12, Datatype::Int32, 4),
    ]);
    let mut data = Vec::new();
    for value in [i8::MIN, -1, 0, i8::MAX] {
        data.extend_from_slice(&value.to_le_bytes());
    }
    for value in [i16::MIN, -1, 0, i16::MAX] {
        data.extend_from_slice(&value.to_le_bytes());
    }
    for value in [i32::MIN, -1, 0, i32::MAX] {
        data.extend_from_slice(&value.to_le_bytes());
    }
    let frame = Frame::new(&schema, &data, 28, false).unwrap();
    assert_eq!(
        decode_rows(&frame),
        Ok(vec![record(vec![
            Value::Int8(i8::MIN),
            Value::Int8(-1),
            Value::Int8(0),
            Value::Int8(i8::MAX),
            Value::Int16(i16::MIN),
            Value::Int16(-1),
            Value::Int16(0),
            Value::Int16(i16::MAX),
            Value::Int32(i32::MIN),
            Value::Int32(-1),
            Value::Int32(0),
            Value::Int32(i32::MAX),
        ])])
    );
}

#[test]
fn decode_rows_unsigned_extremes() {
    let schema = Schema::new(vec![
        FieldDescriptor::new("a", 0, Datatype::Uint8, 2),
        FieldDescriptor::new("b", 2, Datatype::Uint16, 2),
        FieldDescriptor::new("c", 6, Datatype::Uint32, 2),
        FieldDescriptor::new("d", 14, Datatype::Float64, 2),
    ]);
    let mut data = vec![0u8, 0xff];
    data.extend_from_slice(&0u16.to_le_bytes());
    data.extend_from_slice(&u16::MAX.to_le_bytes());
    data.extend_from_slice(&0u32.to_le_bytes());
    data.extend_from_slice(&u32::MAX.to_le_bytes());
    data.extend_from_slice(&0u64.to_le_bytes());
    data.extend_from_slice(&u64::MAX.to_le_bytes());
    let frame = Frame::new(&schema, &data, 30, false).unwrap();
    assert_eq!(
        decode_rows(&frame),
        Ok(vec![record(vec![
            Value::Uint8(0),
            Value::Uint8(0xff),
            Value::Uint16(0),
            Value::Uint16(u16::MAX),
            Value::Uint32(0),
            Value::Uint32(u32::MAX),
            Value::Float64(0),
            Value::Float64(u64::MAX),
        ])])
    );
}

#[test]
fn decode_rows_concatenates_elements_in_field_order() {
    let schema = Schema::new(vec![
        FieldDescriptor::new("pair", 0, Datatype::Uint16, 2),
        FieldDescriptor::new("none", 4, Datatype::Uint32, 0),
        FieldDescriptor::new("triple", 4, Datatype::Uint8, 3),
    ]);
    let data = vec![1, 0, 2, 0, 3, 4, 5, 0, 10, 0, 20, 0, 30, 40, 50, 0];
    let frame = Frame::new(&schema, &data, 8, false).unwrap();
    assert_eq!(
        decode_rows(&frame),
        Ok(vec![
            record(vec![
                Value::Uint16(1),
                Value::Uint16(2),
                Value::Uint8(3),
                Value::Uint8(4),
                Value::Uint8(5),
            ]),
            record(vec![
                Value::Uint16(10),
                Value::Uint16(20),
                Value::Uint8(30),
                Value::Uint8(40),
                Value::Uint8(50),
            ]),
        ])
    );
}

#[test]
fn decode_rows_follows_declared_order_not_offsets() {
    let schema = Schema::new(vec![
        FieldDescriptor::new("second", 1, Datatype::Uint8, 1),
        FieldDescriptor::new("first", 0, Datatype::Uint8, 1),
    ]);
    let data = vec![7, 9];
    let frame = Frame::new(&schema, &data, 2, false).unwrap();
    assert_eq!(decode_rows(&frame), Ok(vec![record(vec![Value::Uint8(9), Value::Uint8(7)])]));
}

#[test]
fn decode_rows_with_an_empty_schema_yields_empty_records() {
    let schema = Schema::new(vec![]);
    let data = vec![0u8; 12];
    let frame = Frame::new(&schema, &data, 4, false).unwrap();
    assert_eq!(decode_rows(&frame), Ok(vec![record(vec![]), record(vec![]), record(vec![])]));
}

#[test]
fn decode_rows_rejects_big_endian_frames() {
    let schema = cartesian_schema();
    let data = floats(&[1.0, 2.0, 3.0, 4.0]);
    let frame = Frame::new(&schema, &data, 16, true).unwrap();
    assert_eq!(decode_rows(&frame), Err(DecodeError::UnsupportedEndianness));
}

#[test]
fn decode_rows_rejects_big_endian_frames_without_rows() {
    let schema = cartesian_schema();
    let data: Vec<u8> = vec![];
    let frame = Frame::new(&schema, &data, 16, true).unwrap();
    assert_eq!(decode_rows(&frame), Err(DecodeError::UnsupportedEndianness));
}

#[test]
fn decode_rows_rejects_big_endian_before_checking_bounds() {
    let schema = cartesian_schema();
    let data = vec![0u8; 8];
    let frame = Frame::new(&schema, &data, 8, true).unwrap();
    assert_eq!(decode_rows(&frame), Err(DecodeError::UnsupportedEndianness));
}

#[test]
fn decode_rows_reports_a_field_behind_the_buffer() {
    let schema = cartesian_schema();
    let data = vec![0u8; 24];
    let frame = Frame::new(&schema, &data, 12, false).unwrap();
    assert_eq!(frame.row_count(), 2);
    assert_eq!(decode_rows(&frame), Err(DecodeError::BufferTooShort));
}

#[test]
fn decode_rows_reports_an_element_one_byte_short() {
    let schema = Schema::new(vec![FieldDescriptor::new("v", 1, Datatype::Uint32, 1)]);
    let data = vec![0u8; 4];
    let frame = Frame::new(&schema, &data, 4, false).unwrap();
    assert_eq!(decode_rows(&frame), Err(DecodeError::BufferTooShort));
    let data = vec![0u8; 5];
    let frame = Frame::new(&schema, &data, 5, false).unwrap();
    assert_eq!(decode_rows(&frame), Ok(vec![record(vec![Value::Uint32(0)])]));
}

#[test]
fn decode_rows_reports_a_count_that_overruns_the_buffer() {
    let schema = Schema::new(vec![FieldDescriptor::new("v", 0, Datatype::Uint16, 5)]);
    let data = vec![0u8; 8];
    let frame = Frame::new(&schema, &data, 8, false).unwrap();
    assert_eq!(decode_rows(&frame), Err(DecodeError::BufferTooShort));
}

#[test]
fn decode_rows_survives_the_largest_offset_and_count() {
    let schema = Schema::new(vec![FieldDescriptor::new(
        "huge",
        u32::MAX,
        Datatype::Float64,
        u32::MAX,
    )]);
    let data = vec![0u8; 64];
    let frame = Frame::new(&schema, &data, 16, false).unwrap();
    assert_eq!(decode_rows(&frame), Err(DecodeError::BufferTooShort));
}

#[test]
fn decode_rows_ignores_fields_without_elements() {
    let schema = Schema::new(vec![
        FieldDescriptor::new("far", 1000, Datatype::Float64, 0),
        FieldDescriptor::new("near", 0, Datatype::Uint8, 1),
    ]);
    let data = vec![3u8, 4];
    let frame = Frame::new(&schema, &data, 1, false).unwrap();
    assert_eq!(
        decode_rows(&frame),
        Ok(vec![record(vec![Value::Uint8(3)]), record(vec![Value::Uint8(4)])])
    );
}

#[test]
fn decode_rows_of_a_frame_without_rows_ignores_the_schema_width() {
    let schema = Schema::new(vec![FieldDescriptor::new("v", 100, Datatype::Float64, 9)]);
    let data: Vec<u8> = vec![];
    let frame = Frame::new(&schema, &data, 4, false).unwrap();
    assert_eq!(decode_rows(&frame), Ok(vec![]));
}

#[test]
fn decode_rows_checks_bounds_against_the_buffer_not_the_row() {
    let schema = Schema::new(vec![FieldDescriptor::new("v", 0, Datatype::Uint16, 1)]);
    let data = vec![1u8, 2, 3];
    let frame = Frame::new(&schema, &data, 1, false).unwrap();
    assert_eq!(frame.row_count(), 3);
    assert_eq!(decode_rows(&frame), Err(DecodeError::BufferTooShort));
}

#[test]
fn decode_rows_is_deterministic() {
    let schema = cartesian_schema();
    let data = floats(&[0.1, -0.0, f32::NAN, f32::INFINITY, 1e-40, 2.5, -7.25, 1e38]);
    let frame = Frame::new(&schema, &data, 16, false).unwrap();
    let first = decode_rows(&frame).unwrap();
    let second = decode_rows(&frame).unwrap();
    assert_eq!(first, second);
    let copy = data.clone();
    let other_schema = cartesian_schema();
    let other_frame = Frame::new(&other_schema, &copy, 16, false).unwrap();
    assert_eq!(decode_rows(&other_frame).unwrap(), first);
    assert_eq!(first[0].values[2], Value::Float32(f32::NAN.to_bits()));
    assert_eq!(first[0].values[1], Value::Float32(0x8000_0000));
}

#[test]
fn decode_rows_leaves_the_buffer_untouched() {
    let schema = cartesian_schema();
    let data = floats(&[1.0, 2.0, 3.0, 4.0, 5.0, 6.0, 7.0, 8.0]);
    let before = data.clone();
    let frame = Frame::new(&schema, &data, 16, false).unwrap();
    let _ = decode_rows(&frame);
    assert_eq!(data, before);
}

#[test]
fn decode_frame_validates_before_decoding() {
    let expected = cartesian_schema();
    let data = floats(&[1.0, 2.0, 3.0, 4.0]);
    let frame = Frame::new(&expected, &data, 16, false).unwrap();
    let records = sick_scan_xd::decode_frame(&frame, &expected).unwrap();
    assert_eq!(
        records,
        vec![record(vec![
            Value::Float32(1.0f32.to_bits()),
            Value::Float32(2.0f32.to_bits()),
            Value::Float32(3.0f32.to_bits()),
            Value::Float32(4.0f32.to_bits()),
        ])]
    );
}

#[test]
fn decode_frame_reports_the_schema_error_first() {
    let expected = cartesian_schema();
    let actual = Schema::new(vec![FieldDescriptor::new("x", 0, Datatype::Float32, 1)]);
    let data = vec![0u8; 2];
    let frame = Frame::new(&actual, &data, 2, true).unwrap();
    assert_eq!(
        sick_scan_xd::decode_frame(&frame, &expected),
        Err(sick_scan_xd::FrameError::Schema(sick_scan_xd::SchemaError::FieldCountMismatch {
            expected: 4,
            actual: 1,
        }))
    );
    assert_eq!(
        sick_scan_xd::decode_frame(&frame, &actual),
        Err(sick_scan_xd::FrameError::Decode(DecodeError::UnsupportedEndianness))
    );
    let frame = Frame::new(&actual, &data, 2, false).unwrap();
    assert_eq!(
        sick_scan_xd::decode_frame(&frame, &actual),
        Err(sick_scan_xd::FrameError::Decode(DecodeError::BufferTooShort))
    );
}
