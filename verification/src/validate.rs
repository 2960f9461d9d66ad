//! The trust boundary between the schema a driver sent and the fixed layout
//! a decoder assumes: exact, position by position comparison.

use crate::schema::{fits_stride, well_formed, FieldDescriptor, FieldSpec, Schema};
use crate::status::SchemaError;
use vstd::prelude::*;

verus! {

/// The error for two fields that differ: it names the first attribute that
/// differs, in the order name, offset, datatype, count.
pub open spec fn first_difference(
    actual: FieldSpec,
    expected: FieldSpec,
    position: usize,
) -> SchemaError {
    if actual.name != expected.name {
        SchemaError::NameMismatch { position }
    } else if actual.byte_offset != expected.byte_offset {
        SchemaError::OffsetMismatch { position }
    } else if actual.datatype != expected.datatype {
        SchemaError::DatatypeMismatch { position }
    } else {
        SchemaError::CountMismatch { position }
    }
}

/// What comparing two fields yields: nothing if they are equal, else the
/// error that names their first difference.
pub open spec fn field_difference(
    actual: FieldSpec,
    expected: FieldSpec,
    position: usize,
) -> Option<SchemaError> {
    if actual == expected {
        None
    } else {
        Some(first_difference(actual, expected, position))
    }
}

/// `position` is the first position at which the two schemas differ.
pub open spec fn is_first_mismatch(
    actual: Seq<FieldSpec>,
    expected: Seq<FieldSpec>,
    position: int,
) -> bool {
    &&& 0 <= position < actual.len()
    &&& position < expected.len()
    &&& actual[position] != expected[position]
    &&& forall|j: int| 0 <= j < position ==> actual[j] == expected[j]
}

/// What validating `actual` against `expected` yields.
pub open spec fn validate_spec(
    actual: Seq<FieldSpec>,
    expected: Seq<FieldSpec>,
) -> Result<(), SchemaError> {
    if actual.len() != expected.len() {
        Err(
            SchemaError::FieldCountMismatch {
                expected: expected.len() as usize,
                actual: actual.len() as usize,
            },
        )
    } else if actual == expected {
        Ok(())
    } else {
        let position = choose|position: int| is_first_mismatch(actual, expected, position);
        Err(first_difference(actual[position], expected[position], position as usize))
    }
}

/// At most one position is the first mismatch of two schemas.
pub proof fn lemma_first_mismatch_is_unique(
    actual: Seq<FieldSpec>,
    expected: Seq<FieldSpec>,
    p: int,
    q: int,
)
    requires
        is_first_mismatch(actual, expected, p),
        is_first_mismatch(actual, expected, q),
    ensures
        p == q,
{
}

/// Validation succeeds on equal schemas and on no others. Schemas of
/// different lengths, such as one that misses a required field, are rejected
/// with both lengths. Schemas of equal length that differ are rejected with
/// the position of the first field that differs and the first attribute of
/// that field that differs.
pub proof fn lemma_validate_identifies_first_mismatch(
    actual: Seq<FieldSpec>,
    expected: Seq<FieldSpec>,
)
    ensures
        validate_spec(actual, expected) is Ok <==> actual == expected,
        actual.len() != expected.len() ==> validate_spec(actual, expected) == Err::<(), SchemaError>(
            SchemaError::FieldCountMismatch {
                expected: expected.len() as usize,
                actual: actual.len() as usize,
            },
        ),
        actual.len() == expected.len() && actual != expected ==> exists|position: int|
            #![trigger is_first_mismatch(actual, expected, position)]
            is_first_mismatch(actual, expected, position) && validate_spec(actual, expected)
                == Err::<(), SchemaError>(
                first_difference(actual[position], expected[position], position as usize),
            ),
{
    if actual.len() == expected.len() && actual != expected {
        let first = lemma_differing_schemas_have_first_mismatch(actual, expected, 0);
        let position = choose|position: int| is_first_mismatch(actual, expected, position);
        lemma_first_mismatch_is_unique(actual, expected, first, position);
    }
}

/// A schema that validates against a well-formed schema is well-formed, and
/// fits every stride that the expected schema fits.
pub proof fn lemma_validated_schema_is_well_formed(
    actual: Seq<FieldSpec>,
    expected: Seq<FieldSpec>,
    stride: nat,
)
    requires
        validate_spec(actual, expected) is Ok,
    ensures
        well_formed(expected) ==> well_formed(actual),
        fits_stride(expected, stride) ==> fits_stride(actual, stride),
{
}

/// Two schemas of equal length that agree before `from` and are not equal
/// have a first mismatch at or behind `from`.
proof fn lemma_differing_schemas_have_first_mismatch(
    actual: Seq<FieldSpec>,
    expected: Seq<FieldSpec>,
    from: int,
) -> (position: int)
    requires
        actual.len() == expected.len(),
        actual != expected,
        0 <= from <= actual.len(),
        forall|j: int| 0 <= j < from ==> actual[j] == expected[j],
    ensures
        is_first_mismatch(actual, expected, position),
    decreases actual.len() - from,
{
    if from == actual.len() {
        assert(actual =~= expected);
        from
    } else if actual[from] != expected[from] {
        from
    } else {
        lemma_differing_schemas_have_first_mismatch(actual, expected, from + 1)
    }
}

/// Compares one received field with the expected one.
fn compare_fields(
    actual: &FieldDescriptor,
    expected: &FieldDescriptor,
    position: usize,
) -> (r: Option<SchemaError>)
    ensures
        r == field_difference(actual@, expected@, position),
{
    if actual.name != expected.name {
        Some(SchemaError::NameMismatch { position })
    } else if actual.byte_offset != expected.byte_offset {
        Some(SchemaError::OffsetMismatch { position })
    } else if actual.datatype != expected.datatype {
        Some(SchemaError::DatatypeMismatch { position })
    } else if actual.count != expected.count {
        Some(SchemaError::CountMismatch { position })
    } else {
        None
    }
}

/// Checks that the received schema `actual` is exactly the schema `expected`.
///
/// Nothing is matched partially or by guessing: the schemas must agree in
/// length and, at every position, in name, offset, datatype and count. The
/// error names the first violation.
pub fn validate(actual: &Schema, expected: &Schema) -> (r: Result<(), SchemaError>)
    ensures
        r == validate_spec(actual@, expected@),
        r is Ok <==> actual@ == expected@,
{
    let n = actual.fields.len();
    if n != expected.fields.len() {
        return Err(
            SchemaError::FieldCountMismatch { expected: expected.fields.len(), actual: n },
        );
    }
    let mut i: usize = 0;
    while i < n
        invariant
            i <= n,
            n == actual@.len(),
            n == expected@.len(),
            forall|j: int| 0 <= j < i ==> actual@[j] == expected@[j],
        decreases n - i,
    {
        let difference = compare_fields(&actual.fields[i], &expected.fields[i], i);
        if let Some(error) = difference {
            proof {
                assert(is_first_mismatch(actual@, expected@, i as int));
                let position = choose|position: int|
                    is_first_mismatch(actual@, expected@, position);
                lemma_first_mismatch_is_unique(actual@, expected@, i as int, position);
            }
            return Err(error);
        }
        i += 1;
    }
    assert(actual@ =~= expected@);
    Ok(())
}

} // verus!
