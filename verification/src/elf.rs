//! Interfaces for the domain model built on the accessor core: the
//! executable-header, section-header, program-header and string-table
//! abstractions of an ELF object. Implementors aggregate field descriptors
//! behind named structures; none of the accessor logic lives here.

use vstd::prelude::*;
use core::ops::Range;
use crate::access::{Encode, Field, Getter, Mutable, Setter, spec_field_at};

verus! {

/// A structure embedded in an object file, such as a header table, whose
/// byte range is fixed only once the surrounding file is parsed.
pub trait ElfObject {
    /// The byte range of the file this object occupies.
    spec fn spec_range(&self) -> Range<usize>;

    /// Records the byte range of the file this object occupies.
    fn set_range(&mut self, range: Range<usize>)
        ensures
            final(self).spec_range() == range,
    ;
}

/// The identification region of an executable header. Its byte-order
/// indicator field must be exactly one byte wide, so that the two readings
/// agree and the indicator can be recovered before any order is chosen;
/// every later multi-byte access then goes through a view built with the
/// recovered order.
pub trait Ident: Setter + Getter {
    /// The one-byte field storing the byte-order indicator. Its value is
    /// usually cached by the implementing structure.
    type Encode: Field<FieldType = Encode>;

    /// The indicator field is one byte wide, and on a one-byte sequence
    /// its two readings agree.
    proof fn lemma_indicator_order_independent()
        ensures
            Self::Encode::spec_end() == Self::Encode::spec_start() + 1,
            forall|s: Seq<u8>|
                s.len() == 1 ==> #[trigger] Self::Encode::spec_from_le(s)
                    == Self::Encode::spec_from_be(s),
    ;
}

/// An indicator field one byte wide reads the same under both orders, so
/// it can be decoded before the buffer's own order is known: views under
/// either order agree on its value.
pub proof fn lemma_indicator_read_is_order_free<I: Ident>(buf: Seq<u8>)
    requires
        <I::Encode as Field>::spec_end() <= buf.len(),
    ensures
        spec_field_at::<I::Encode>(Encode::Le, buf) == spec_field_at::<I::Encode>(Encode::Be, buf),
{
    I::lemma_indicator_order_independent();
    <I::Encode as Field>::lemma_range_well_formed();
}

/// An executable header: the fields that locate the two header tables and
/// the section-name string table.
pub trait Ehdr: Setter + Getter {
    /// The range of the program-header table. The per-entry size is a
    /// constant, so this one field fixes the table's offset, entry size
    /// and total size.
    type PhtRange: Field<FieldType = Range<usize>> + Mutable;

    /// The range of the section-header table, fixing that table's offset,
    /// entry size and total size in the same way.
    type ShtRange: Field<FieldType = Range<usize>> + Mutable;

    /// The index, within the section-header table, of the header of the
    /// string table that names the sections.
    type Shstrndx: Field<FieldType = usize>;
}

/// A string table: section or symbol names looked up by index.
pub trait Strtab {
    /// The name stored at the given index.
    fn index(&self, idx: usize) -> &String;
}

/// A section header: locates its section's bytes within the file.
pub trait Shdr: Setter + Getter {
    /// The range of the section in the file.
    type SecRange: Field<FieldType = Range<usize>>;
}

/// The section-header table: section headers looked up by index.
pub trait ShdrTab<T>: ElfObject where T: Shdr {
    /// The section header at the given index.
    fn index(&self, idx: usize) -> &T;
}

/// A program header: locates its segment's bytes within the file.
pub trait Phdr: Setter + Getter {
    /// The range of the segment in the file.
    type SegRange: Field<FieldType = Range<usize>>;
}

/// The program-header table: program headers looked up by index.
pub trait PhdrTab<T> where T: Phdr {
    /// The program header at the given index.
    fn index(&self, idx: usize) -> &T;
}

/// A segment: the sections it spans, looked up by index, and the program
/// header that describes it.
pub trait Segmemt<T> where T: Shdr {
    /// The program header describing this segment.
    type Header: Phdr + Field;

    /// The section at the given index within this segment.
    fn index(&self, idx: usize) -> &T;
}

/// A section: read through a view, described by its section header.
pub trait Section: Getter {
    /// The section header describing this section.
    type Header: Shdr + Field;
}

} // verus!
