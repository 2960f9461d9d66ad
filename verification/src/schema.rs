//! Field descriptors and schemas: the layout of one row of a frame.

use vstd::prelude::*;
use vstd::utf8::is_ascii_chars;

verus! {

/// Numeric type of one element of a field.
#[derive(Debug, Clone, Copy, PartialEq, Eq, Hash, Structural)]
pub enum Datatype {
    Int8,
    Uint8,
    Int16,
    Uint16,
    Int32,
    Uint32,
    Float32,
    Float64,
}

impl Datatype {
    /// Number of bytes that one element of this type occupies.
    pub open spec fn width(self) -> nat {
        match self {
            Datatype::Int8 | Datatype::Uint8 => 1,
            Datatype::Int16 | Datatype::Uint16 => 2,
            Datatype::Int32 | Datatype::Uint32 | Datatype::Float32 => 4,
            Datatype::Float64 => 8,
        }
    }

    /// Number of bytes that one element of this type occupies.
    pub fn size(self) -> (n: usize)
        ensures
            n == self.width(),
            1 <= n <= 8,
    {
        match self {
            Datatype::Int8 | Datatype::Uint8 => 1,
            Datatype::Int16 | Datatype::Uint16 => 2,
            Datatype::Int32 | Datatype::Uint32 | Datatype::Float32 => 4,
            Datatype::Float64 => 8,
        }
    }
}

/// Mathematical content of a field descriptor.
pub struct FieldSpec {
    pub name: Seq<char>,
    pub byte_offset: nat,
    pub datatype: Datatype,
    pub count: nat,
}

impl FieldSpec {
    /// Number of bytes that the field's elements occupy together.
    pub open spec fn byte_len(self) -> nat {
        self.count * self.datatype.width()
    }

    /// Offset, within a row, of the first byte behind the field.
    pub open spec fn end(self) -> nat {
        self.byte_offset + self.byte_len()
    }
}

/// Describes one named field of a row: where it starts, what type its
/// elements have, and how many elements it holds.
#[derive(Debug, Clone, PartialEq, Eq)]
pub struct FieldDescriptor {
    pub name: String,
    pub byte_offset: u32,
    pub datatype: Datatype,
    pub count: u32,
}

impl View for FieldDescriptor {
    type V = FieldSpec;

    open spec fn view(&self) -> FieldSpec {
        FieldSpec {
            name: self.name@,
            byte_offset: self.byte_offset as nat,
            datatype: self.datatype,
            count: self.count as nat,
        }
    }
}

impl FieldDescriptor {
    /// A descriptor with the given attributes.
    pub fn new(
        name: &str,
        byte_offset: u32,
        datatype: Datatype,
        count: u32,
    ) -> (field: FieldDescriptor)
        ensures
            field@ == (FieldSpec {
                name: name@,
                byte_offset: byte_offset as nat,
                datatype,
                count: count as nat,
            }),
    {
        FieldDescriptor { name: name.to_owned(), byte_offset, datatype, count }
    }

    /// Number of bytes that the field's elements occupy together.
    pub fn byte_len(&self) -> (n: u64)
        ensures
            n == self@.byte_len(),
    {
        let size: u64 = self.datatype.size() as u64;
        let count: u64 = self.count as u64;
        assert(count * size <= 0xffff_ffff * 8) by (nonlinear_arith)
            requires
                count <= 0xffff_ffff,
                size <= 8,
        ;
        count * size
    }

    /// Offset, within a row, of the first byte behind the field.
    pub fn end(&self) -> (n: u64)
        ensures
            n == self@.end(),
    {
        self.byte_offset as u64 + self.byte_len()
    }
}

/// Ordered list of the field descriptors that describe a row.
#[derive(Debug, Clone, PartialEq, Eq)]
pub struct Schema {
    pub fields: Vec<FieldDescriptor>,
}

impl View for Schema {
    type V = Seq<FieldSpec>;

    open spec fn view(&self) -> Seq<FieldSpec> {
        Seq::new(self.fields@.len(), |i: int| self.fields@[i]@)
    }
}

/// Every field ends before any later field starts: offsets never decrease
/// and no two fields overlap.
pub open spec fn layout_ordered(fields: Seq<FieldSpec>) -> bool {
    forall|i: int, j: int|
        #![trigger fields[i], fields[j]]
        0 <= i < j < fields.len() ==> fields[i].end() <= fields[j].byte_offset
}

/// Every field's name is made of ASCII characters only.
pub open spec fn names_ascii(fields: Seq<FieldSpec>) -> bool {
    forall|i: int| 0 <= i < fields.len() ==> is_ascii_chars((#[trigger] fields[i]).name)
}

/// The invariant of a schema: ASCII names, and a layout in which offsets
/// never decrease and no two fields overlap.
pub open spec fn well_formed(fields: Seq<FieldSpec>) -> bool {
    names_ascii(fields) && layout_ordered(fields)
}

/// Every field ends within the first `stride` bytes of a row.
pub open spec fn fits_stride(fields: Seq<FieldSpec>, stride: nat) -> bool {
    forall|i: int| 0 <= i < fields.len() ==> (#[trigger] fields[i]).end() <= stride
}

/// Smallest number of bytes that holds every field of a row: the largest
/// end of a field, and 0 for an empty schema.
pub open spec fn row_width(fields: Seq<FieldSpec>) -> nat
    decreases fields.len(),
{
    if fields.len() == 0 {
        0
    } else {
        let rest = row_width(fields.drop_last());
        if fields.last().end() > rest {
            fields.last().end()
        } else {
            rest
        }
    }
}

/// A schema fits a stride exactly when the stride is at least its row width.
pub proof fn lemma_row_width_is_least_fitting_stride(fields: Seq<FieldSpec>, stride: nat)
    ensures
        fits_stride(fields, stride) <==> row_width(fields) <= stride,
    decreases fields.len(),
{
    if fields.len() > 0 {
        let front = fields.drop_last();
        lemma_row_width_is_least_fitting_stride(front, stride);
        if fits_stride(fields, stride) {
            assert forall|i: int| 0 <= i < front.len() implies (#[trigger] front[i]).end()
                <= stride by {
                assert(front[i] == fields[i]);
            }
            assert(fields[fields.len() - 1].end() <= stride);
        }
        if row_width(fields) <= stride {
            assert forall|i: int| 0 <= i < fields.len() implies (#[trigger] fields[i]).end()
                <= stride by {
                if i < front.len() {
                    assert(front[i] == fields[i]);
                }
            }
        }
    }
}

impl Schema {
    /// The schema made of `fields`, in their order.
    pub fn new(fields: Vec<FieldDescriptor>) -> (schema: Schema)
        ensures
            schema.fields == fields,
    {
        Schema { fields }
    }

    /// Number of fields.
    pub fn len(&self) -> (n: usize)
        ensures
            n == self@.len(),
    {
        self.fields.len()
    }

    /// Whether every field has an ASCII name.
    fn has_ascii_names(&self) -> (ok: bool)
        ensures
            ok == names_ascii(self@),
    {
        let n = self.fields.len();
        let ghost fields = self@;
        let mut i: usize = 0;
        while i < n
            invariant
                i <= n,
                n == self.fields@.len(),
                fields == self@,
                forall|j: int| 0 <= j < i ==> is_ascii_chars((#[trigger] fields[j]).name),
            decreases n - i,
        {
            if !self.fields[i].name.as_str().is_ascii() {
                assert(!is_ascii_chars(fields[i as int].name));
                return false;
            }
            i += 1;
        }
        true
    }

    /// Whether the schema keeps its invariant: every name is ASCII, and the
    /// fields are laid out in order without overlap.
    pub fn is_well_formed(&self) -> (ok: bool)
        ensures
            ok == well_formed(self@),
    {
        self.has_ascii_names() && self.has_ordered_layout()
    }

    /// Whether the fields are laid out in order without overlap.
    fn has_ordered_layout(&self) -> (ok: bool)
        ensures
            ok == layout_ordered(self@),
    {
        let n = self.fields.len();
        if n == 0 {
            return true;
        }
        let ghost fields = self@;
        let mut i: usize = 1;
        while i < n
            invariant
                1 <= i <= n,
                n == self.fields@.len(),
                fields == self@,
                layout_ordered(fields.take(i as int)),
            decreases n - i,
        {
            let previous_end = self.fields[i - 1].end();
            if previous_end > self.fields[i].byte_offset as u64 {
                assert(fields[i - 1].end() > fields[i as int].byte_offset);
                return false;
            }
            proof {
                let shorter = fields.take(i as int);
                let longer = fields.take(i + 1);
                assert forall|a: int, b: int|
                    #![trigger longer[a], longer[b]]
                    0 <= a < b < longer.len() implies longer[a].end()
                    <= longer[b].byte_offset by {
                    if b < i {
                        assert(shorter[a] == longer[a] && shorter[b] == longer[b]);
                    } else if a < i - 1 {
                        assert(shorter[a] == longer[a]);
                        assert(shorter[i - 1] == longer[i - 1]);
                        assert(shorter[a].end() <= shorter[i - 1].byte_offset);
                    }
                }
            }
            i += 1;
        }
        assert(fields.take(n as int) =~= fields);
        true
    }

    /// Smallest row stride that holds every field.
    pub fn row_width(&self) -> (width: u64)
        ensures
            width == row_width(self@),
    {
        let n = self.fields.len();
        let ghost fields = self@;
        let mut width: u64 = 0;
        let mut i: usize = 0;
        assert(fields.take(0) =~= Seq::<FieldSpec>::empty());
        while i < n
            invariant
                i <= n,
                n == self.fields@.len(),
                fields == self@,
                width == row_width(fields.take(i as int)),
            decreases n - i,
        {
            let end = self.fields[i].end();
            proof {
                let longer = fields.take(i + 1);
                assert(longer.drop_last() =~= fields.take(i as int));
                assert(longer.last() == fields[i as int]);
            }
            if end > width {
                width = end;
            }
            i += 1;
        }
        assert(fields.take(n as int) =~= fields);
        width
    }
}

} // verus!
