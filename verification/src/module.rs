//! The module: one loaded object. Parsing splits the object into its
//! recognized sections and yields the declared maps, programs and
//! pending relocations, exactly as the specification model
//! [`spec_parse`] describes them.

use vstd::prelude::*;

use crate::elf::{
    check_header, data_ok, header_ok, name_at, parse_rel_entries, parse_symtab, read_shdr, sec_data,
    section_data, section_name, spec_header_fault, spec_rel_entries, spec_shdr, spec_shnum,
    spec_shstrndx, spec_syms, RawRel, Shdr, SHT_PROGBITS, SHT_REL, SHT_SYMTAB,
};
use crate::error::{LoadError, ParseFault};
use crate::insn::{spec_insns, Insn};
use crate::map::{parse_map_def, spec_map_def, KernelMap, MapDef};
use crate::program::{Program, ProgramKind};
use crate::wire::{
    all_ascii, ascii_chars, byte_pos, check_ascii, copy_range, find_byte, le32,
    lemma_byte_pos_bounds, name_is, read_u16, read_u32, string_from_ascii,
};
use vstd::string::StringSliceAdditionalSpecFns;

verus! {

/// The version sentinel that stands for "the running kernel's release".
pub const VERSION_SENTINEL: u32 = 0xFFFF_FFFE;

/// A pending relocation: patch the program declared by section
/// `target`, at instruction byte offset `offset`, with the map that
/// symbol `sym` resolves to. `shndx` is the relocation section itself.
#[derive(Clone, Copy, Debug, PartialEq, Eq, Structural)]
pub struct Rel {
    pub shndx: usize,
    pub target: usize,
    pub offset: u64,
    pub sym: usize,
}

/// A declared map as the specification model records it.
pub ghost struct SpecMapRec {
    pub section_index: usize,
    pub name: Seq<u8>,
    pub def: MapDef,
}

/// A declared program as the specification model records it.
pub ghost struct SpecProgRec {
    pub section_index: usize,
    pub kind: ProgramKind,
    pub name: Seq<u8>,
    pub code: Seq<Insn>,
}

/// Everything the recognized sections of an object declare.
pub ghost struct ParseState {
    pub license: Seq<u8>,
    pub version: u32,
    pub maps: Seq<SpecMapRec>,
    pub progs: Seq<SpecProgRec>,
    pub rels: Seq<Rel>,
    pub symtab: Seq<u16>,
    pub have_symtab: bool,
}

pub open spec fn empty_state() -> ParseState {
    ParseState {
        license: Seq::empty(),
        version: 0,
        maps: Seq::empty(),
        progs: Seq::empty(),
        rels: Seq::empty(),
        symtab: Seq::empty(),
        have_symtab: false,
    }
}

/// The category half of a section name: everything before the first
/// slash, or the whole name without one.
pub open spec fn sec_head(n: Seq<u8>) -> Seq<u8> {
    n.subrange(0, byte_pos(n, 0, 0x2f))
}

/// The specific half of a section name: everything after the first
/// slash, when there is one.
pub open spec fn sec_tail(n: Seq<u8>) -> Option<Seq<u8>> {
    if byte_pos(n, 0, 0x2f) < n.len() {
        Some(n.subrange(byte_pos(n, 0, 0x2f) + 1, n.len() as int))
    } else {
        None
    }
}

/// A version value, with the sentinel replaced by the running kernel's
/// release code.
pub open spec fn spec_resolve_version(raw: u32, kernel_version: u32) -> u32 {
    if raw == VERSION_SENTINEL {
        kernel_version
    } else {
        raw
    }
}

/// The program kind a section category declares, if any.
pub open spec fn spec_prog_kind(head: Seq<u8>) -> Option<ProgramKind> {
    if head == "kprobe".spec_bytes() {
        Some(ProgramKind::Kprobe)
    } else if head == "kretprobe".spec_bytes() {
        Some(ProgramKind::Kretprobe)
    } else if head == "xdp".spec_bytes() {
        Some(ProgramKind::XDP)
    } else if head == "socketfilter".spec_bytes() {
        Some(ProgramKind::SocketFilter)
    } else {
        None
    }
}

/// The section-name string table.
pub open spec fn strtab_data(b: Seq<u8>) -> Seq<u8> {
    sec_data(b, spec_shdr(b, spec_shstrndx(b)))
}

/// One relocation record lifted into a pending [`Rel`].
pub open spec fn mk_rel(shndx: usize, info: u32, e: RawRel) -> Rel {
    Rel { shndx, target: info as usize, offset: e.offset, sym: e.sym as usize }
}

/// What one section contributes to the parse, or the fault that stops
/// it. This is the reference model the executable parser is held to.
pub open spec fn step_section(b: Seq<u8>, kernel_version: u32, st: ParseState, i: int) -> Result<
    ParseState,
    ParseFault,
> {
    let h = spec_shdr(b, i);
    match name_at(strtab_data(b), h.name_off as int) {
        None => Err(ParseFault::BadSectionName),
        Some(n) => if !all_ascii(n) {
            Err(ParseFault::NonAsciiName)
        } else if h.sh_type == SHT_REL {
            if !data_ok(b, h) {
                Err(ParseFault::SectionDataOutOfBounds)
            } else if sec_data(b, h).len() % 16 != 0 {
                Err(ParseFault::RelocationTable)
            } else {
                Ok(
                    ParseState {
                        rels: st.rels + spec_rel_entries(sec_data(b, h)).map_values(
                            |e: RawRel| mk_rel(i as usize, h.info, e),
                        ),
                        ..st
                    },
                )
            }
        } else if h.sh_type == SHT_SYMTAB {
            if st.have_symtab {
                Ok(st)
            } else if !data_ok(b, h) {
                Err(ParseFault::SectionDataOutOfBounds)
            } else if sec_data(b, h).len() % 24 != 0 {
                Err(ParseFault::SymbolTable)
            } else {
                Ok(ParseState { symtab: spec_syms(sec_data(b, h)), have_symtab: true, ..st })
            }
        } else if h.sh_type == SHT_PROGBITS {
            let head = sec_head(n);
            if head == "version".spec_bytes() {
                if !data_ok(b, h) {
                    Err(ParseFault::SectionDataOutOfBounds)
                } else if sec_data(b, h).len() < 4 {
                    Err(ParseFault::VersionPayload)
                } else {
                    Ok(
                        ParseState {
                            version: spec_resolve_version(
                                le32(sec_data(b, h), 0) as u32,
                                kernel_version,
                            ),
                            ..st
                        },
                    )
                }
            } else if head == "license".spec_bytes() {
                if !data_ok(b, h) {
                    Err(ParseFault::SectionDataOutOfBounds)
                } else {
                    let d = sec_data(b, h);
                    let p = byte_pos(d, 0, 0);
                    if p == d.len() {
                        Err(ParseFault::LicensePayload)
                    } else if !all_ascii(d.subrange(0, p)) {
                        Err(ParseFault::NonAsciiName)
                    } else {
                        Ok(ParseState { license: d.subrange(0, p) + st.license, ..st })
                    }
                }
            } else if head == "maps".spec_bytes() && sec_tail(n) is Some {
                if !data_ok(b, h) {
                    Err(ParseFault::SectionDataOutOfBounds)
                } else if sec_data(b, h).len() < 20 {
                    Err(ParseFault::MapDescriptor)
                } else {
                    Ok(
                        ParseState {
                            maps: st.maps.push(
                                SpecMapRec {
                                    section_index: i as usize,
                                    name: sec_tail(n).unwrap(),
                                    def: spec_map_def(sec_data(b, h)),
                                },
                            ),
                            ..st
                        },
                    )
                }
            } else if spec_prog_kind(head) is Some && sec_tail(n) is Some {
                if !data_ok(b, h) {
                    Err(ParseFault::SectionDataOutOfBounds)
                } else if sec_data(b, h).len() % 8 != 0 {
                    Err(ParseFault::ProgramCode)
                } else {
                    Ok(
                        ParseState {
                            progs: st.progs.push(
                                SpecProgRec {
                                    section_index: i as usize,
                                    kind: spec_prog_kind(head).unwrap(),
                                    name: sec_tail(n).unwrap(),
                                    code: spec_insns(sec_data(b, h)),
                                },
                            ),
                            ..st
                        },
                    )
                }
            } else {
                Ok(st)
            }
        } else {
            Ok(st)
        },
    }
}

/// The parse after the first `i` sections.
pub open spec fn fold_sections(b: Seq<u8>, kernel_version: u32, i: int) -> Result<
    ParseState,
    ParseFault,
>
    decreases i,
{
    if i <= 0 {
        Ok(empty_state())
    } else {
        match fold_sections(b, kernel_version, i - 1) {
            Err(f) => Err(f),
            Ok(st) => step_section(b, kernel_version, st, i - 1),
        }
    }
}

/// A fault never heals: once a section is malformed, the whole parse
/// reports that fault.
pub proof fn lemma_fold_error_sticks(b: Seq<u8>, kernel_version: u32, i: int, j: int, f: ParseFault)
    requires
        0 <= i <= j,
        fold_sections(b, kernel_version, i) == Err::<ParseState, ParseFault>(f),
    ensures
        fold_sections(b, kernel_version, j) == Err::<ParseState, ParseFault>(f),
    decreases j - i,
{
    if i < j {
        lemma_fold_error_sticks(b, kernel_version, i, j - 1, f);
    }
}

/// The whole parse of an object: the header checks, then every section
/// in order.
pub open spec fn spec_parse(b: Seq<u8>, kernel_version: u32) -> Result<ParseState, ParseFault> {
    if !header_ok(b) {
        Err(spec_header_fault(b))
    } else if spec_shnum(b) == 0 {
        Ok(empty_state())
    } else if !(spec_shstrndx(b) < spec_shnum(b)) {
        Err(ParseFault::BadStringTableIndex)
    } else if !data_ok(b, spec_shdr(b, spec_shstrndx(b))) {
        Err(ParseFault::SectionDataOutOfBounds)
    } else {
        fold_sections(b, kernel_version, spec_shnum(b))
    }
}

/// One loaded object: its license, version stamp, programs, maps, and
/// the relocations and symbol table still pending application.
pub struct Module {
    pub programs: Vec<Program>,
    pub maps: Vec<KernelMap>,
    pub license: String,
    pub version: u32,
    /// Relocations the object declares; applied by
    /// [`Module::apply_relocations`] once every map is materialized.
    pub rels: Vec<Rel>,
    /// Each symbol's declaring section index, from the object's symbol
    /// table.
    pub symtab: Vec<u16>,
}

/// The executable map mirrors its specification record and is not yet
/// materialized.
pub open spec fn map_rec_match(m: KernelMap, r: SpecMapRec) -> bool {
    &&& m.wf()
    &&& m.name@ == ascii_chars(r.name)
    &&& m.kind == r.def.kind
    &&& m.fd is None
    &&& m.section_index == r.section_index
    &&& m.config == r.def
}

pub open spec fn maps_match(ms: Seq<KernelMap>, rs: Seq<SpecMapRec>) -> bool {
    ms.len() == rs.len() && forall|j: int| 0 <= j < ms.len() ==> map_rec_match(#[trigger] ms[j], rs[j])
}

/// The executable program mirrors its specification record and is
/// neither loaded nor attached.
pub open spec fn prog_rec_match(p: Program, r: SpecProgRec) -> bool {
    &&& p.wf()
    &&& p.name@ == ascii_chars(r.name)
    &&& p.kind == r.kind
    &&& p.code@ == r.code
    &&& p.fd is None
    &&& p.pfd is None
    &&& p.section_index == r.section_index
}

pub open spec fn progs_match(ps: Seq<Program>, rs: Seq<SpecProgRec>) -> bool {
    ps.len() == rs.len() && forall|j: int| 0 <= j < ps.len() ==> prog_rec_match(
        #[trigger] ps[j],
        rs[j],
    )
}

/// The parser's working state while it walks the sections.
struct ParseAcc {
    license_b: Vec<u8>,
    version: u32,
    maps: Vec<KernelMap>,
    progs: Vec<Program>,
    rels: Vec<Rel>,
    symtab: Vec<u16>,
    have_symtab: bool,
}

/// The working state realizes a parse-model state.
spec fn acc_matches(acc: ParseAcc, st: ParseState) -> bool {
    &&& all_ascii(acc.license_b@)
    &&& acc.license_b@ == st.license
    &&& acc.version == st.version
    &&& maps_match(acc.maps@, st.maps)
    &&& progs_match(acc.progs@, st.progs)
    &&& acc.rels@ == st.rels
    &&& acc.symtab@ == st.symtab
    &&& acc.have_symtab == st.have_symtab
}

/// Handles one relocation section.
fn step_rel(
    bytes: &[u8],
    i: usize,
    h: Shdr,
    acc: &mut ParseAcc,
    Ghost(kernel_version): Ghost<u32>,
    Ghost(st): Ghost<ParseState>,
    Ghost(nm): Ghost<Seq<u8>>,
) -> (r: Result<(), ParseFault>)
    requires
        header_ok(bytes@),
        i < spec_shnum(bytes@),
        h == spec_shdr(bytes@, i as int),
        h.sh_type == SHT_REL,
        name_at(strtab_data(bytes@), h.name_off as int) == Some(nm),
        all_ascii(nm),
        acc_matches(*old(acc), st),
    ensures
        match r {
            Ok(()) => step_section(bytes@, kernel_version, st, i as int) matches Ok(st2)
                && acc_matches(*final(acc), st2),
            Err(f) => step_section(bytes@, kernel_version, st, i as int) == Err::<
                ParseState,
                ParseFault,
            >(f),
        },
{
    let d = match section_data(bytes, &h) {
        Ok(d) => d,
        Err(f) => {
            return Err(f);
        },
    };
    let entries = match parse_rel_entries(d) {
        Ok(v) => v,
        Err(f) => {
            return Err(f);
        },
    };
    let ghost acc0 = *acc;
    let ghost rels0 = acc.rels@;
    let mut k: usize = 0;
    while k < entries.len()
        invariant
            k <= entries@.len(),
            acc.license_b@ == acc0.license_b@,
            acc.version == acc0.version,
            acc.maps@ == acc0.maps@,
            acc.progs@ == acc0.progs@,
            acc.symtab@ == acc0.symtab@,
            acc.have_symtab == acc0.have_symtab,
            acc.rels@.len() == rels0.len() + k,
            forall|j: int| 0 <= j < rels0.len() ==> acc.rels@[j] == rels0[j],
            forall|j: int| 0 <= j < k ==> acc.rels@[rels0.len() + j] == mk_rel(
                i,
                h.info,
                #[trigger] entries@[j],
            ),
        decreases entries@.len() - k,
    {
        let e = entries[k];
        acc.rels.push(Rel { shndx: i, target: h.info as usize, offset: e.offset, sym: e.sym as usize });
        k = k + 1;
    }
    proof {
        let stp = step_section(bytes@, kernel_version, st, i as int);
        assert(stp is Ok);
        let st2 = stp->Ok_0;
        assert(st2.rels.len() == st.rels.len() + spec_rel_entries(sec_data(bytes@, h)).len());
        assert(acc.rels@ =~= st2.rels);
    }
    Ok(())
}

/// Handles one symbol-table section; the first one wins.
fn step_symtab(
    bytes: &[u8],
    i: usize,
    h: Shdr,
    acc: &mut ParseAcc,
    Ghost(kernel_version): Ghost<u32>,
    Ghost(st): Ghost<ParseState>,
    Ghost(nm): Ghost<Seq<u8>>,
) -> (r: Result<(), ParseFault>)
    requires
        header_ok(bytes@),
        i < spec_shnum(bytes@),
        h == spec_shdr(bytes@, i as int),
        h.sh_type == SHT_SYMTAB,
        name_at(strtab_data(bytes@), h.name_off as int) == Some(nm),
        all_ascii(nm),
        acc_matches(*old(acc), st),
    ensures
        match r {
            Ok(()) => step_section(bytes@, kernel_version, st, i as int) matches Ok(st2)
                && acc_matches(*final(acc), st2),
            Err(f) => step_section(bytes@, kernel_version, st, i as int) == Err::<
                ParseState,
                ParseFault,
            >(f),
        },
{
    if acc.have_symtab {
        return Ok(());
    }
    let d = match section_data(bytes, &h) {
        Ok(d) => d,
        Err(f) => {
            return Err(f);
        },
    };
    acc.symtab = match parse_symtab(d) {
        Ok(v) => v,
        Err(f) => {
            return Err(f);
        },
    };
    acc.have_symtab = true;
    Ok(())
}

/// Handles one program-bits section: version, license, a map
/// declaration, or a program, by its name.
fn step_progbits(
    bytes: &[u8],
    kernel_version: u32,
    i: usize,
    h: Shdr,
    nm: &Vec<u8>,
    acc: &mut ParseAcc,
    Ghost(st): Ghost<ParseState>,
) -> (r: Result<(), ParseFault>)
    requires
        header_ok(bytes@),
        i < spec_shnum(bytes@),
        h == spec_shdr(bytes@, i as int),
        h.sh_type == SHT_PROGBITS,
        name_at(strtab_data(bytes@), h.name_off as int) == Some(nm@),
        all_ascii(nm@),
        acc_matches(*old(acc), st),
    ensures
        match r {
            Ok(()) => step_section(bytes@, kernel_version, st, i as int) matches Ok(st2)
                && acc_matches(*final(acc), st2),
            Err(f) => step_section(bytes@, kernel_version, st, i as int) == Err::<
                ParseState,
                ParseFault,
            >(f),
        },
{
    let slash = find_byte(nm.as_slice(), 0, 0x2f);
    proof {
        lemma_byte_pos_bounds(nm@, 0, 0x2f);
    }
    let head = vstd::slice::slice_subrange(nm.as_slice(), 0, slash);
    proof {
        assert(head@ == sec_head(nm@));
    }
    if name_is(head, "version") {
        let d = match section_data(bytes, &h) {
            Ok(d) => d,
            Err(f) => {
                return Err(f);
            },
        };
        acc.version = match get_version(d, kernel_version) {
            Ok(v) => v,
            Err(f) => {
                return Err(f);
            },
        };
        Ok(())
    } else if name_is(head, "license") {
        let d = match section_data(bytes, &h) {
            Ok(d) => d,
            Err(f) => {
                return Err(f);
            },
        };
        let p = find_byte(d, 0, 0);
        proof {
            lemma_byte_pos_bounds(d@, 0, 0);
        }
        if p == d.len() {
            return Err(ParseFault::LicensePayload);
        }
        let mut lic = copy_range(d, 0, p);
        if !check_ascii(lic.as_slice()) {
            return Err(ParseFault::NonAsciiName);
        }
        lic.append(&mut acc.license_b);
        acc.license_b = lic;
        Ok(())
    } else if name_is(head, "maps") && slash < nm.len() {
        let d = match section_data(bytes, &h) {
            Ok(d) => d,
            Err(f) => {
                return Err(f);
            },
        };
        let def = match parse_map_def(d) {
            Ok(c) => c,
            Err(f) => {
                return Err(f);
            },
        };
        let tail = copy_range(nm.as_slice(), slash + 1, nm.len());
        let name = string_from_ascii(tail);
        let ghost maps0 = acc.maps@;
        acc.maps.push(KernelMap { name, kind: def.kind, fd: None, section_index: i, config: def });
        proof {
            let st2 = ParseState {
                maps: st.maps.push(
                    SpecMapRec {
                        section_index: i,
                        name: sec_tail(nm@).unwrap(),
                        def: spec_map_def(sec_data(bytes@, h)),
                    },
                ),
                ..st
            };
            assert(step_section(bytes@, kernel_version, st, i as int) == Ok::<
                ParseState,
                ParseFault,
            >(st2));
            assert forall|j: int| 0 <= j < acc.maps@.len() implies map_rec_match(
                #[trigger] acc.maps@[j],
                st2.maps[j],
            ) by {
                if j < maps0.len() {
                    assert(map_rec_match(maps0[j], st.maps[j]));
                }
            }
        }
        Ok(())
    } else {
        let kind = if name_is(head, "kprobe") {
            Some(ProgramKind::Kprobe)
        } else if name_is(head, "kretprobe") {
            Some(ProgramKind::Kretprobe)
        } else if name_is(head, "xdp") {
            Some(ProgramKind::XDP)
        } else if name_is(head, "socketfilter") {
            Some(ProgramKind::SocketFilter)
        } else {
            None
        };
        if let Some(kind) = kind {
            if slash < nm.len() {
                let d = match section_data(bytes, &h) {
                    Ok(d) => d,
                    Err(f) => {
                        return Err(f);
                    },
                };
                let code = match crate::insn::parse_insns(d) {
                    Ok(v) => v,
                    Err(f) => {
                        return Err(f);
                    },
                };
                let tail = copy_range(nm.as_slice(), slash + 1, nm.len());
                let name = string_from_ascii(tail);
                let ghost progs0 = acc.progs@;
                acc.progs.push(
                    Program {
                        pfd: None,
                        fd: None,
                        kind,
                        name,
                        code,
                        section_index: i,
                        loaded_code: Ghost(Seq::empty()),
                    },
                );
                proof {
                    let st2 = ParseState {
                        progs: st.progs.push(
                            SpecProgRec {
                                section_index: i,
                                kind,
                                name: sec_tail(nm@).unwrap(),
                                code: spec_insns(sec_data(bytes@, h)),
                            },
                        ),
                        ..st
                    };
                    assert(step_section(bytes@, kernel_version, st, i as int) == Ok::<
                        ParseState,
                        ParseFault,
                    >(st2));
                    assert forall|j: int| 0 <= j < acc.progs@.len() implies prog_rec_match(
                        #[trigger] acc.progs@[j],
                        st2.progs[j],
                    ) by {
                        if j < progs0.len() {
                            assert(prog_rec_match(progs0[j], st.progs[j]));
                        }
                    }
                }
                return Ok(());
            }
        }
        Ok(())
    }
}

/// Handles one section of any type.
fn step_exec(
    bytes: &[u8],
    strtab: &[u8],
    kernel_version: u32,
    i: usize,
    acc: &mut ParseAcc,
    Ghost(st): Ghost<ParseState>,
) -> (r: Result<(), ParseFault>)
    requires
        header_ok(bytes@),
        i < spec_shnum(bytes@),
        spec_shstrndx(bytes@) < spec_shnum(bytes@),
        data_ok(bytes@, spec_shdr(bytes@, spec_shstrndx(bytes@))),
        strtab@ == strtab_data(bytes@),
        acc_matches(*old(acc), st),
    ensures
        match r {
            Ok(()) => step_section(bytes@, kernel_version, st, i as int) matches Ok(st2)
                && acc_matches(*final(acc), st2),
            Err(f) => step_section(bytes@, kernel_version, st, i as int) == Err::<
                ParseState,
                ParseFault,
            >(f),
        },
{
    let h = read_shdr(bytes, i);
    let nm = match section_name(strtab, h.name_off) {
        Ok(nm) => nm,
        Err(f) => {
            return Err(f);
        },
    };
    if h.sh_type == SHT_REL {
        step_rel(bytes, i, h, acc, Ghost(kernel_version), Ghost(st), Ghost(nm@))
    } else if h.sh_type == SHT_SYMTAB {
        step_symtab(bytes, i, h, acc, Ghost(kernel_version), Ghost(st), Ghost(nm@))
    } else if h.sh_type == SHT_PROGBITS {
        step_progbits(bytes, kernel_version, i, h, &nm, acc, Ghost(st))
    } else {
        Ok(())
    }
}

impl Module {
    /// The structural invariant, inherited from programs and maps.
    pub open spec fn wf(self) -> bool {
        &&& forall|j: int| 0 <= j < self.programs@.len() ==> (#[trigger] self.programs@[j]).wf()
        &&& forall|j: int| 0 <= j < self.maps@.len() ==> (#[trigger] self.maps@[j]).wf()
    }

    /// The module holds exactly what the parse model says the object
    /// declares.
    pub open spec fn matches(self, st: ParseState) -> bool {
        &&& self.license@ == ascii_chars(st.license)
        &&& self.version == st.version
        &&& maps_match(self.maps@, st.maps)
        &&& progs_match(self.programs@, st.progs)
        &&& self.rels@ == st.rels
        &&& self.symtab@ == st.symtab
    }

    /// Parses an object. The result is pinned to [`spec_parse`]: every
    /// recognized section lands in the module, in section order, and
    /// every malformation is the exact fault the model names.
    /// `kernel_version` replaces the version sentinel (the release
    /// code, as [`crate::release::parse_release`] computes it).
    #[verifier::rlimit(60)]
    pub fn parse(bytes: &[u8], kernel_version: u32) -> (r: Result<Module, LoadError>)
        ensures
            match r {
                Ok(m) => {
                    &&& spec_parse(bytes@, kernel_version) matches Ok(st) && m.matches(st)
                    &&& m.wf()
                },
                Err(LoadError::Parse(f)) => spec_parse(bytes@, kernel_version) == Err::<
                    ParseState,
                    ParseFault,
                >(f),
                Err(_) => false,
            },
    {
        let ghost b = bytes@;
        if let Err(f) = check_header(bytes) {
            return Err(LoadError::Parse(f));
        }
        let shnum = read_u16(bytes, 0x3c) as usize;
        if shnum == 0 {
            let m = Module {
                programs: Vec::new(),
                maps: Vec::new(),
                license: string_from_ascii(Vec::new()),
                version: 0,
                rels: Vec::new(),
                symtab: Vec::new(),
            };
            proof {
                assert(ascii_chars(Seq::<u8>::empty()) =~= Seq::<char>::empty());
            }
            return Ok(m);
        }
        let strndx = read_u16(bytes, 0x3e) as usize;
        if !(strndx < shnum) {
            return Err(LoadError::Parse(ParseFault::BadStringTableIndex));
        }
        let strtab_hdr = read_shdr(bytes, strndx);
        let strtab = match section_data(bytes, &strtab_hdr) {
            Ok(d) => d,
            Err(f) => {
                return Err(LoadError::Parse(f));
            },
        };

        let mut acc = ParseAcc {
            license_b: Vec::new(),
            version: 0,
            maps: Vec::new(),
            progs: Vec::new(),
            rels: Vec::new(),
            symtab: Vec::new(),
            have_symtab: false,
        };

        let mut i: usize = 0;
        while i < shnum
            invariant
                header_ok(b),
                bytes@ == b,
                shnum == spec_shnum(b),
                shnum > 0,
                strndx == spec_shstrndx(b),
                strndx < shnum,
                data_ok(b, spec_shdr(b, strndx as int)),
                strtab@ == strtab_data(b),
                i <= shnum,
                fold_sections(b, kernel_version, i as int) matches Ok(st) && acc_matches(acc, st),
            decreases shnum - i,
        {
            let ghost st = fold_sections(b, kernel_version, i as int)->Ok_0;
            match step_exec(bytes, strtab, kernel_version, i, &mut acc, Ghost(st)) {
                Ok(()) => {
                    proof {
                        assert(fold_sections(b, kernel_version, i + 1) == step_section(
                            b,
                            kernel_version,
                            st,
                            i as int,
                        ));
                    }
                },
                Err(f) => {
                    proof {
                        assert(fold_sections(b, kernel_version, i + 1) == Err::<
                            ParseState,
                            ParseFault,
                        >(f));
                        lemma_fold_error_sticks(b, kernel_version, i + 1, shnum as int, f);
                    }
                    return Err(LoadError::Parse(f));
                },
            }
            i = i + 1;
        }
        let ParseAcc { license_b, version, maps, progs, rels, symtab, have_symtab: _ } = acc;
        let m = Module { programs: progs, maps, license: string_from_ascii(license_b), version, rels, symtab };
        Ok(m)
    }
}

/// Parsing the same object twice yields the same module: identical map
/// descriptors, identical instruction arrays, and identical license,
/// version, relocations and symbol table. The parse model is a function
/// of the bytes and the release code alone, and every parse result
/// realizes it.
pub proof fn lemma_parse_deterministic(b: Seq<u8>, kernel_version: u32, m1: Module, m2: Module)
    requires
        spec_parse(b, kernel_version) is Ok,
        m1.matches(spec_parse(b, kernel_version)->Ok_0),
        m2.matches(spec_parse(b, kernel_version)->Ok_0),
    ensures
        m1.license@ == m2.license@,
        m1.version == m2.version,
        m1.maps@.len() == m2.maps@.len(),
        forall|j: int| 0 <= j < m1.maps@.len() ==> {
            &&& (#[trigger] m1.maps@[j]).config == m2.maps@[j].config
            &&& m1.maps@[j].name@ == m2.maps@[j].name@
            &&& m1.maps@[j].kind == m2.maps@[j].kind
            &&& m1.maps@[j].section_index == m2.maps@[j].section_index
        },
        m1.programs@.len() == m2.programs@.len(),
        forall|j: int| 0 <= j < m1.programs@.len() ==> {
            &&& (#[trigger] m1.programs@[j]).code@ == m2.programs@[j].code@
            &&& m1.programs@[j].name@ == m2.programs@[j].name@
            &&& m1.programs@[j].kind == m2.programs@[j].kind
            &&& m1.programs@[j].section_index == m2.programs@[j].section_index
        },
        m1.rels@ == m2.rels@,
        m1.symtab@ == m2.symtab@,
{
    let st = spec_parse(b, kernel_version)->Ok_0;
    assert forall|j: int| 0 <= j < m1.maps@.len() implies {
        &&& (#[trigger] m1.maps@[j]).config == m2.maps@[j].config
        &&& m1.maps@[j].name@ == m2.maps@[j].name@
        &&& m1.maps@[j].kind == m2.maps@[j].kind
        &&& m1.maps@[j].section_index == m2.maps@[j].section_index
    } by {
        assert(map_rec_match(m1.maps@[j], st.maps[j]));
        assert(map_rec_match(m2.maps@[j], st.maps[j]));
    }
    assert forall|j: int| 0 <= j < m1.programs@.len() implies {
        &&& (#[trigger] m1.programs@[j]).code@ == m2.programs@[j].code@
        &&& m1.programs@[j].name@ == m2.programs@[j].name@
        &&& m1.programs@[j].kind == m2.programs@[j].kind
        &&& m1.programs@[j].section_index == m2.programs@[j].section_index
    } by {
        assert(prog_rec_match(m1.programs@[j], st.progs[j]));
        assert(prog_rec_match(m2.programs@[j], st.progs[j]));
    }
}

/// Reads a `version` section: its 32-bit value, with the sentinel
/// replaced by the given release code.
pub fn get_version(d: &[u8], kernel_version: u32) -> (r: Result<u32, ParseFault>)
    ensures
        match r {
            Ok(v) => d@.len() >= 4 && v == spec_resolve_version(le32(d@, 0) as u32, kernel_version),
            Err(f) => d@.len() < 4 && f == ParseFault::VersionPayload,
        },
{
    if d.len() < 4 {
        return Err(ParseFault::VersionPayload);
    }
    let raw = read_u32(d, 0);
    if raw == VERSION_SENTINEL {
        Ok(kernel_version)
    } else {
        Ok(raw)
    }
}

} // verus!
