//! Error taxonomy of the loader.

use vstd::prelude::*;

verus! {

/// Why an object file was rejected as malformed.
#[derive(Clone, Copy, Debug, PartialEq, Eq, Structural)]
pub enum ParseFault {
    /// The file is too short to hold an object header.
    HeaderTruncated,
    /// The magic number is not the object container's.
    BadMagic,
    /// The container is not the 64-bit little-endian class this loader reads.
    BadClass,
    /// The section header table lies outside the file, or has a foreign entry size.
    SectionTableOutOfBounds,
    /// The section name string table index is out of range.
    BadStringTableIndex,
    /// A recognized section's bytes lie outside the file.
    SectionDataOutOfBounds,
    /// A section name offset has no terminated string behind it.
    BadSectionName,
    /// A section name is not plain ASCII.
    NonAsciiName,
    /// A `version` section does not hold a 4-byte value.
    VersionPayload,
    /// A `license` section is not a NUL-terminated string.
    LicensePayload,
    /// A map section does not hold a whole descriptor record.
    MapDescriptor,
    /// A program section is not a whole number of instructions.
    ProgramCode,
    /// A relocation section is not a whole number of relocation records.
    RelocationTable,
    /// A symbol table section is not a whole number of symbol records.
    SymbolTable,
}

/// Everything that can go wrong while loading and running an object.
#[derive(Debug)]
pub enum LoadError {
    /// An embedded identifier holds an interior NUL byte.
    StringConversion,
    /// The kernel refused a request; the payload carries the detail the
    /// kernel handed back (for program loads, the verifier log).
    BPF(String),
    /// A reserved section category with an unknown subtype.
    Section(String),
    /// The object container or a recognized section payload is malformed.
    Parse(ParseFault),
    /// The kernel release string could not be decoded.
    KernelRelease(String),
    /// The OS release lookup itself failed.
    Uname,
    /// Reading OS-exposed state (such as the cpu list) failed or produced
    /// something malformed.
    OsIntrospection(String),
    /// A relocation's target program or referent map is missing.
    Reloc,
}

pub type Result<T> = core::result::Result<T, LoadError>;

} // verus!
