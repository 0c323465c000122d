//! The relocatable object container: header checks, section headers,
//! the section-name string table, symbols and relocation records.
//!
//! Only the 64-bit little-endian class is read, which is the class the
//! probe toolchain emits.

use vstd::prelude::*;

use crate::error::ParseFault;
use crate::wire::{
    all_ascii, byte_pos, check_ascii, copy_range, find_byte, le16, le32, le64, lemma_byte_pos_bounds,
    read_u16, read_u32, read_u64,
};

verus! {

/// Section holds program-defined bytes.
pub const SHT_PROGBITS: u32 = 1;

/// Section holds a symbol table.
pub const SHT_SYMTAB: u32 = 2;

/// Section holds relocation records without addends.
pub const SHT_REL: u32 = 9;

/// One section header, reduced to the fields the loader reads.
#[derive(Clone, Copy, Debug, PartialEq, Eq, Structural)]
pub struct Shdr {
    /// Offset of the section's name inside the string table.
    pub name_off: u32,
    /// The section's type tag.
    pub sh_type: u32,
    /// File offset of the section's bytes.
    pub offset: u64,
    /// Byte length of the section.
    pub size: u64,
    /// Type-specific companion index; for a relocation section, the index
    /// of the section its records patch.
    pub info: u32,
}

/// The file starts with the container magic and declares the 64-bit
/// little-endian class.
pub open spec fn magic_ok(b: Seq<u8>) -> bool {
    &&& b.len() >= 64
    &&& b[0] == 0x7f
    &&& b[1] == 0x45
    &&& b[2] == 0x4c
    &&& b[3] == 0x46
}

pub open spec fn class_ok(b: Seq<u8>) -> bool {
    b[4] == 2 && b[5] == 1
}

/// File offset of the section header table.
pub open spec fn spec_shoff(b: Seq<u8>) -> int {
    le64(b, 0x28)
}

/// Size of one section header entry as the file declares it.
pub open spec fn spec_shentsize(b: Seq<u8>) -> int {
    le16(b, 0x3a)
}

/// Number of section headers.
pub open spec fn spec_shnum(b: Seq<u8>) -> int {
    le16(b, 0x3c)
}

/// Index of the section-name string table.
pub open spec fn spec_shstrndx(b: Seq<u8>) -> int {
    le16(b, 0x3e)
}

/// The section header table lies inside the file, with the entry size
/// this loader understands.
pub open spec fn table_ok(b: Seq<u8>) -> bool {
    &&& spec_shentsize(b) == 64
    &&& spec_shoff(b) + spec_shnum(b) * 64 <= b.len()
}

/// Every check the container header must pass before sections are read.
pub open spec fn header_ok(b: Seq<u8>) -> bool {
    magic_ok(b) && class_ok(b) && table_ok(b)
}

/// The section header at index `i`.
pub open spec fn spec_shdr(b: Seq<u8>, i: int) -> Shdr
    recommends
        header_ok(b),
        0 <= i < spec_shnum(b),
{
    let p = spec_shoff(b) + i * 64;
    Shdr {
        name_off: le32(b, p) as u32,
        sh_type: le32(b, p + 4) as u32,
        offset: le64(b, p + 24) as u64,
        size: le64(b, p + 32) as u64,
        info: le32(b, p + 44) as u32,
    }
}

/// Validates the fixed header. Each malformation is reported as its own
/// fault, checked in this order.
pub fn check_header(b: &[u8]) -> (r: Result<(), ParseFault>)
    ensures
        match r {
            Ok(()) => header_ok(b@),
            Err(f) => !header_ok(b@) && f == spec_header_fault(b@),
        },
{
    let n = b.len();
    if n < 64 {
        return Err(ParseFault::HeaderTruncated);
    }
    if !(b[0] == 0x7f && b[1] == 0x45 && b[2] == 0x4c && b[3] == 0x46) {
        return Err(ParseFault::BadMagic);
    }
    if !(b[4] == 2 && b[5] == 1) {
        return Err(ParseFault::BadClass);
    }
    let shentsize = read_u16(b, 0x3a);
    if shentsize != 64 {
        return Err(ParseFault::SectionTableOutOfBounds);
    }
    let shoff = read_u64(b, 0x28);
    let shnum = read_u16(b, 0x3c) as u64;
    if shoff > n as u64 || shnum * 64 > n as u64 - shoff {
        return Err(ParseFault::SectionTableOutOfBounds);
    }
    Ok(())
}

/// The fault `check_header` reports for a malformed header.
pub open spec fn spec_header_fault(b: Seq<u8>) -> ParseFault {
    if b.len() < 64 {
        ParseFault::HeaderTruncated
    } else if !magic_ok(b) {
        ParseFault::BadMagic
    } else if !class_ok(b) {
        ParseFault::BadClass
    } else {
        ParseFault::SectionTableOutOfBounds
    }
}

/// Reads the section header at index `i`.
pub fn read_shdr(b: &[u8], i: usize) -> (h: Shdr)
    requires
        header_ok(b@),
        i < spec_shnum(b@),
    ensures
        h == spec_shdr(b@, i as int),
{
    let n = b.len();
    let shoff = read_u64(b, 0x28);
    let p = shoff as usize + i * 64;
    Shdr {
        name_off: read_u32(b, p),
        sh_type: read_u32(b, p + 4),
        offset: read_u64(b, p + 24),
        size: read_u64(b, p + 32),
        info: read_u32(b, p + 44),
    }
}

/// The section's bytes lie inside the file.
pub open spec fn data_ok(b: Seq<u8>, h: Shdr) -> bool {
    h.offset + h.size <= b.len()
}

/// The section's bytes.
pub open spec fn sec_data(b: Seq<u8>, h: Shdr) -> Seq<u8>
    recommends
        data_ok(b, h),
{
    b.subrange(h.offset as int, h.offset + h.size)
}

/// Slices out a section's bytes, rejecting a section that reaches past
/// the end of the file.
pub fn section_data<'a>(b: &'a [u8], h: &Shdr) -> (r: Result<&'a [u8], ParseFault>)
    ensures
        match r {
            Ok(d) => data_ok(b@, *h) && d@ == sec_data(b@, *h),
            Err(f) => !data_ok(b@, *h) && f == ParseFault::SectionDataOutOfBounds,
        },
{
    let n = b.len();
    if h.offset > n as u64 || h.size > n as u64 - h.offset {
        return Err(ParseFault::SectionDataOutOfBounds);
    }
    let from = h.offset as usize;
    let to = from + h.size as usize;
    Ok(vstd::slice::slice_subrange(b, from, to))
}

/// The name stored at `off` in the string table: the bytes before the
/// next NUL, or nothing when no terminated string starts there.
pub open spec fn name_at(st: Seq<u8>, off: int) -> Option<Seq<u8>> {
    if 0 <= off <= st.len() && byte_pos(st, off, 0) < st.len() {
        Some(st.subrange(off, byte_pos(st, off, 0)))
    } else {
        None
    }
}

/// Looks a section name up in the string table. A missing or
/// unterminated name, and a name that is not plain ASCII, are faults.
pub fn section_name(st: &[u8], off: u32) -> (r: Result<Vec<u8>, ParseFault>)
    ensures
        match r {
            Ok(nm) => name_at(st@, off as int) == Some(nm@) && all_ascii(nm@),
            Err(ParseFault::BadSectionName) => name_at(st@, off as int) is None,
            Err(ParseFault::NonAsciiName) => match name_at(st@, off as int) {
                Some(nm) => !all_ascii(nm),
                None => false,
            },
            Err(_) => false,
        },
{
    let n = st.len();
    if off as u64 > n as u64 {
        return Err(ParseFault::BadSectionName);
    }
    let start = off as usize;
    let end = find_byte(st, start, 0);
    proof {
        lemma_byte_pos_bounds(st@, start as int, 0);
    }
    if end == n {
        return Err(ParseFault::BadSectionName);
    }
    let nm = copy_range(st, start, end);
    if !check_ascii(nm.as_slice()) {
        return Err(ParseFault::NonAsciiName);
    }
    Ok(nm)
}

/// The section indices recorded in a symbol table section, one per
/// symbol record.
pub open spec fn spec_syms(d: Seq<u8>) -> Seq<u16> {
    Seq::new((d.len() / 24) as nat, |k: int| le16(d, k * 24 + 6) as u16)
}

/// Decodes a symbol table section down to each symbol's section index,
/// which is all relocation resolution reads.
pub fn parse_symtab(d: &[u8]) -> (r: Result<Vec<u16>, ParseFault>)
    ensures
        match r {
            Ok(v) => d@.len() % 24 == 0 && v@ == spec_syms(d@),
            Err(f) => d@.len() % 24 != 0 && f == ParseFault::SymbolTable,
        },
{
    let n = d.len();
    if n % 24 != 0 {
        return Err(ParseFault::SymbolTable);
    }
    let count = n / 24;
    let mut v: Vec<u16> = Vec::new();
    let mut k: usize = 0;
    while k < count
        invariant
            n == d@.len(),
            n % 24 == 0,
            count == n / 24,
            k <= count,
            v@.len() == k,
            forall|j: int| 0 <= j < k ==> v@[j] == le16(d@, j * 24 + 6) as u16,
        decreases count - k,
    {
        v.push(read_u16(d, k * 24 + 6));
        k = k + 1;
    }
    proof {
        assert(v@ =~= spec_syms(d@));
    }
    Ok(v)
}

/// One raw relocation record: the byte offset it patches and the symbol
/// it resolves through. The symbol index is the high half of the record's
/// info word.
#[derive(Clone, Copy, Debug, PartialEq, Eq, Structural)]
pub struct RawRel {
    pub offset: u64,
    pub sym: u32,
}

/// The relocation records packed into a relocation section.
pub open spec fn spec_rel_entries(d: Seq<u8>) -> Seq<RawRel> {
    Seq::new(
        (d.len() / 16) as nat,
        |k: int| RawRel { offset: le64(d, k * 16) as u64, sym: le32(d, k * 16 + 12) as u32 },
    )
}

/// Decodes a relocation section: accepted exactly when it is a whole
/// number of records.
pub fn parse_rel_entries(d: &[u8]) -> (r: Result<Vec<RawRel>, ParseFault>)
    ensures
        match r {
            Ok(v) => d@.len() % 16 == 0 && v@ == spec_rel_entries(d@),
            Err(f) => d@.len() % 16 != 0 && f == ParseFault::RelocationTable,
        },
{
    let n = d.len();
    if n % 16 != 0 {
        return Err(ParseFault::RelocationTable);
    }
    let count = n / 16;
    let mut v: Vec<RawRel> = Vec::new();
    let mut k: usize = 0;
    while k < count
        invariant
            n == d@.len(),
            n % 16 == 0,
            count == n / 16,
            k <= count,
            v@.len() == k,
            forall|j: int| 0 <= j < k ==> v@[j] == (RawRel {
                offset: le64(d@, j * 16) as u64,
                sym: le32(d@, j * 16 + 12) as u32,
            }),
        decreases count - k,
    {
        let e = RawRel { offset: read_u64(d, k * 16), sym: read_u32(d, k * 16 + 12) };
        v.push(e);
        k = k + 1;
    }
    proof {
        assert(v@ =~= spec_rel_entries(d@));
    }
    Ok(v)
}

} // verus!
