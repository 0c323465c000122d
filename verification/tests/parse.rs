//! End-to-end tests of object parsing, map materialization, relocation
//! application, program load/attach bookkeeping, and tear-down.

use redbpf::error::{LoadError, ParseFault};
use redbpf::insn::PSEUDO_MAP_FD;
use redbpf::lifecycle::close_plan;
use redbpf::module::Module;
use redbpf::program::{AttachRequest, ProgramKind, LOG_BUF_SIZE, PROG_TYPE_KPROBE};
use redbpf::release::parse_release;

/// One section to lay out: name, type, info, bytes.
struct Sec {
    name: &'static str,
    sh_type: u32,
    info: u32,
    data: Vec<u8>,
}

const SHT_NULL: u32 = 0;
const SHT_PROGBITS: u32 = 1;
const SHT_SYMTAB: u32 = 2;
const SHT_STRTAB: u32 = 3;
const SHT_REL: u32 = 9;

/// Builds a minimal 64-bit little-endian relocatable object holding the
/// given sections, plus the null section and the section-name string
/// table.
fn build_object(secs: &[Sec]) -> Vec<u8> {
    // Section table: null, then the caller's sections, then .shstrtab.
    let mut names: Vec<&str> = vec![""];
    for s in secs {
        names.push(s.name);
    }
    names.push(".shstrtab");

    let mut strtab: Vec<u8> = vec![0];
    let mut name_offs: Vec<u32> = Vec::new();
    for n in &names {
        if n.is_empty() {
            name_offs.push(0);
        } else {
            name_offs.push(strtab.len() as u32);
            strtab.extend_from_slice(n.as_bytes());
            strtab.push(0);
        }
    }

    let shnum = secs.len() + 2;
    let mut out: Vec<u8> = vec![0u8; 64];
    out[0] = 0x7f;
    out[1] = b'E';
    out[2] = b'L';
    out[3] = b'F';
    out[4] = 2; // 64-bit
    out[5] = 1; // little-endian
    out[6] = 1;

    // Section data, in order: caller sections then shstrtab.
    let mut offsets: Vec<(u64, u64)> = vec![(0, 0)]; // null section
    for s in secs {
        offsets.push((out.len() as u64, s.data.len() as u64));
        out.extend_from_slice(&s.data);
    }
    offsets.push((out.len() as u64, strtab.len() as u64));
    out.extend_from_slice(&strtab);

    let shoff = out.len() as u64;
    for i in 0..shnum {
        let mut h = [0u8; 64];
        h[0..4].copy_from_slice(&name_offs[i].to_le_bytes());
        let sh_type = if i == 0 {
            SHT_NULL
        } else if i <= secs.len() {
            secs[i - 1].sh_type
        } else {
            SHT_STRTAB
        };
        h[4..8].copy_from_slice(&sh_type.to_le_bytes());
        h[24..32].copy_from_slice(&offsets[i].0.to_le_bytes());
        h[32..40].copy_from_slice(&offsets[i].1.to_le_bytes());
        let info = if i >= 1 && i <= secs.len() { secs[i - 1].info } else { 0 };
        h[44..48].copy_from_slice(&info.to_le_bytes());
        out.extend_from_slice(&h);
    }

    // Patch the fixed header.
    out[0x28..0x30].copy_from_slice(&shoff.to_le_bytes());
    out[0x3a..0x3c].copy_from_slice(&64u16.to_le_bytes());
    out[0x3c..0x3e].copy_from_slice(&(shnum as u16).to_le_bytes());
    out[0x3e..0x40].copy_from_slice(&((shnum - 1) as u16).to_le_bytes());
    out
}

fn map_def(kind: u32, key: u32, value: u32, entries: u32, flags: u32) -> Vec<u8> {
    let mut d = Vec::new();
    for v in [kind, key, value, entries, flags] {
        d.extend_from_slice(&v.to_le_bytes());
    }
    d
}

/// `count` instructions, each with a distinct opcode byte.
fn insns(count: usize) -> Vec<u8> {
    let mut d = Vec::new();
    for k in 0..count {
        d.push(k as u8);
        d.extend_from_slice(&[0u8; 7]);
    }
    d
}

/// One relocation record: patch `offset`, resolve through symbol `sym`.
fn rel_entry(offset: u64, sym: u32) -> Vec<u8> {
    let mut d = Vec::new();
    d.extend_from_slice(&offset.to_le_bytes());
    d.extend_from_slice(&0u32.to_le_bytes());
    d.extend_from_slice(&sym.to_le_bytes());
    d
}

/// A symbol table where symbol 1 points at section `shndx`.
fn symtab_with(shndx: u16) -> Vec<u8> {
    let mut d = vec![0u8; 24]; // null symbol
    let mut s = [0u8; 24];
    s[6..8].copy_from_slice(&shndx.to_le_bytes());
    d.extend_from_slice(&s);
    d
}

/// The standard test object: license, version, one ring-buffer map, one
/// probe program of 40 instructions with one relocation at offset 16.
fn probe_object(version: u32) -> Vec<u8> {
    build_object(&[
        Sec { name: "license", sh_type: SHT_PROGBITS, info: 0, data: b"GPL\0".to_vec() },
        Sec { name: "version", sh_type: SHT_PROGBITS, info: 0, data: version.to_le_bytes().to_vec() },
        // section 3: the map
        Sec { name: "maps/events", sh_type: SHT_PROGBITS, info: 0, data: map_def(4, 4, 32, 1024, 0) },
        // section 4: the program
        Sec { name: "kprobe/do_sys_open", sh_type: SHT_PROGBITS, info: 0, data: insns(40) },
        Sec { name: "symbols", sh_type: SHT_SYMTAB, info: 0, data: symtab_with(3) },
        Sec { name: "relocs", sh_type: SHT_REL, info: 4, data: rel_entry(16, 1) },
    ])
}

#[test]
fn parse_recognizes_all_sections() {
    let m = Module::parse(&probe_object(7), 0).unwrap();
    assert_eq!(m.license, "GPL");
    assert_eq!(m.version, 7);
    assert_eq!(m.maps.len(), 1);
    assert_eq!(m.maps[0].name, "events");
    assert_eq!(m.maps[0].kind, 4);
    assert_eq!(m.maps[0].config.key_size, 4);
    assert_eq!(m.maps[0].config.value_size, 32);
    assert_eq!(m.maps[0].config.max_entries, 1024);
    assert_eq!(m.maps[0].section_index, 3);
    assert!(m.maps[0].fd.is_none());
    assert_eq!(m.programs.len(), 1);
    assert_eq!(m.programs[0].name, "do_sys_open");
    assert!(matches!(m.programs[0].kind, ProgramKind::Kprobe));
    assert_eq!(m.programs[0].code.len(), 40);
    assert_eq!(m.programs[0].section_index, 4);
    assert_eq!(m.rels.len(), 1);
    assert_eq!(m.rels[0].target, 4);
    assert_eq!(m.rels[0].offset, 16);
    assert_eq!(m.rels[0].sym, 1);
    assert_eq!(m.symtab.len(), 2);
    assert_eq!(m.symtab[1], 3);
}

#[test]
fn load_and_attach_full_lifecycle() {
    // Parse, materialize the map, relocate, load, attach: the scenario
    // of one ring-buffer map and one forty-instruction probe with one
    // relocation at byte offset sixteen.
    let mut m = Module::parse(&probe_object(0), 0).unwrap();
    m.maps[0].materialize(5, String::new()).unwrap();
    assert_eq!(m.maps[0].fd, Some(5));
    m.apply_relocations().unwrap();

    // Instruction 2 (= offset 16 / 8) carries the sentinel and the
    // map's kernel handle.
    assert_eq!(m.programs[0].code[2].src_reg, PSEUDO_MAP_FD);
    assert_eq!(m.programs[0].code[2].imm, 5);
    // Neighbours untouched.
    assert_eq!(m.programs[0].code[1].src_reg, 0);
    assert_eq!(m.programs[0].code[3].src_reg, 0);

    let code_after_reloc: Vec<_> = m.programs[0].code.clone();

    let license = m.license.clone();
    let req = m.programs[0].load_request(m.version, &license).unwrap();
    assert_eq!(req.prog_type, PROG_TYPE_KPROBE);
    assert_eq!(req.insn_count, 40);
    assert_eq!(req.insns.len(), 40 * 8);
    assert_eq!(req.name, b"do_sys_open".to_vec());
    assert_eq!(req.license, b"GPL".to_vec());
    assert_eq!(req.log_size, LOG_BUF_SIZE);
    // The encoded stream carries the patched immediate.
    assert_eq!(req.insns[2 * 8 + 1], PSEUDO_MAP_FD << 4);
    assert_eq!(req.insns[2 * 8 + 4], 5);

    m.programs[0].load_complete(7, String::new()).unwrap();
    assert!(m.programs[0].is_loaded());
    // Loading does not mutate the instructions.
    assert_eq!(m.programs[0].code, code_after_reloc);

    let areq = m.programs[0].attach_probe_request().unwrap();
    match areq {
        AttachRequest::Kprobe { prog_fd, attach_type, symbol } => {
            assert_eq!(prog_fd, 7);
            assert_eq!(attach_type, 0);
            assert_eq!(symbol, b"do_sys_open".to_vec());
        },
        _ => panic!("expected a probe attachment"),
    }
    m.programs[0].attach_complete(9, String::new()).unwrap();
    assert!(m.programs[0].is_attached());
    assert!(m.programs[0].is_loaded());
    assert_eq!(m.programs[0].code, code_after_reloc);

    // Tear-down releases attachments, then programs, then rings, then
    // maps.
    let mut cs = m.close();
    assert_eq!(cs.attachments, vec![9]);
    assert_eq!(cs.programs, vec![7]);
    assert!(cs.rings.is_empty());
    assert_eq!(cs.maps, vec![5]);
    cs.rings = vec![11, 12];
    assert_eq!(close_plan(&cs), vec![9, 7, 11, 12, 5]);

    // A second close is a no-op.
    let cs2 = m.close();
    assert!(cs2.attachments.is_empty());
    assert!(cs2.programs.is_empty());
    assert!(cs2.maps.is_empty());
    assert!(close_plan(&cs2).is_empty());
}

#[test]
fn version_sentinel_substituted() {
    // The sentinel takes the running kernel's release code.
    let release = parse_release(b"5.15.0-91").unwrap();
    assert_eq!(release, (5 << 16) | (15 << 8));
    let m = Module::parse(&probe_object(0xFFFF_FFFE), release).unwrap();
    assert_eq!(m.version, (5 << 16) | (15 << 8));
}

#[test]
fn version_other_values_pass_through() {
    let m = Module::parse(&probe_object(0x00FF_FFFE), 0x0005_0F00).unwrap();
    assert_eq!(m.version, 0x00FF_FFFE);
    let m = Module::parse(&probe_object(0x1234), 0x0005_0F00).unwrap();
    assert_eq!(m.version, 0x1234);
}

#[test]
fn parse_is_deterministic() {
    // Byte-identical map descriptors and instruction arrays on every
    // parse of the same object.
    let obj = probe_object(3);
    let m1 = Module::parse(&obj, 0).unwrap();
    let m2 = Module::parse(&obj, 0).unwrap();
    assert_eq!(m1.maps.len(), m2.maps.len());
    assert_eq!(m1.maps[0].config, m2.maps[0].config);
    assert_eq!(m1.maps[0].name, m2.maps[0].name);
    assert_eq!(m1.programs.len(), m2.programs.len());
    assert_eq!(m1.programs[0].code, m2.programs[0].code);
    assert_eq!(m1.license, m2.license);
    assert_eq!(m1.version, m2.version);
}

#[test]
fn load_failure_carries_verifier_log_and_leaks_nothing() {
    let mut m = Module::parse(&probe_object(0), 0).unwrap();
    m.maps[0].materialize(5, String::new()).unwrap();
    m.apply_relocations().unwrap();
    let r = m.programs[0].load_complete(-1, String::from("R1 type mismatch"));
    match r {
        Err(LoadError::BPF(log)) => assert_eq!(log, "R1 type mismatch"),
        _ => panic!("expected the kernel refusal with its log"),
    }
    assert!(!m.programs[0].is_loaded());
    // Tear-down still succeeds and releases only the map.
    let cs = m.close();
    assert!(cs.attachments.is_empty());
    assert!(cs.programs.is_empty());
    assert_eq!(cs.maps, vec![5]);
}

#[test]
fn unresolved_relocation_is_fatal() {
    // Symbol 1 points at a section that declares no map.
    let obj = build_object(&[
        Sec { name: "kprobe/foo", sh_type: SHT_PROGBITS, info: 0, data: insns(4) },
        Sec { name: "symbols", sh_type: SHT_SYMTAB, info: 0, data: symtab_with(9) },
        Sec { name: "relocs", sh_type: SHT_REL, info: 1, data: rel_entry(0, 1) },
    ]);
    let mut m = Module::parse(&obj, 0).unwrap();
    assert!(matches!(m.apply_relocations(), Err(LoadError::Reloc)));
    // And the program is untouched.
    assert_eq!(m.programs[0].code[0].src_reg, 0);
}

#[test]
fn malformed_objects_are_rejected() {
    assert!(matches!(
        Module::parse(&[], 0),
        Err(LoadError::Parse(ParseFault::HeaderTruncated))
    ));
    let mut bad_magic = probe_object(0);
    bad_magic[0] = 0;
    assert!(matches!(
        Module::parse(&bad_magic, 0),
        Err(LoadError::Parse(ParseFault::BadMagic))
    ));
    let mut bad_class = probe_object(0);
    bad_class[4] = 1;
    assert!(matches!(
        Module::parse(&bad_class, 0),
        Err(LoadError::Parse(ParseFault::BadClass))
    ));

    let short_map = build_object(&[Sec {
        name: "maps/events",
        sh_type: SHT_PROGBITS,
        info: 0,
        data: vec![1, 2, 3],
    }]);
    assert!(matches!(
        Module::parse(&short_map, 0),
        Err(LoadError::Parse(ParseFault::MapDescriptor))
    ));

    let ragged_prog = build_object(&[Sec {
        name: "kprobe/foo",
        sh_type: SHT_PROGBITS,
        info: 0,
        data: vec![0; 12],
    }]);
    assert!(matches!(
        Module::parse(&ragged_prog, 0),
        Err(LoadError::Parse(ParseFault::ProgramCode))
    ));

    let unterminated_license = build_object(&[Sec {
        name: "license",
        sh_type: SHT_PROGBITS,
        info: 0,
        data: b"GPL".to_vec(),
    }]);
    assert!(matches!(
        Module::parse(&unterminated_license, 0),
        Err(LoadError::Parse(ParseFault::LicensePayload))
    ));

    let short_version = build_object(&[Sec {
        name: "version",
        sh_type: SHT_PROGBITS,
        info: 0,
        data: vec![1, 2],
    }]);
    assert!(matches!(
        Module::parse(&short_version, 0),
        Err(LoadError::Parse(ParseFault::VersionPayload))
    ));

    let ragged_rel = build_object(&[Sec {
        name: "relocs",
        sh_type: SHT_REL,
        info: 0,
        data: vec![0; 10],
    }]);
    assert!(matches!(
        Module::parse(&ragged_rel, 0),
        Err(LoadError::Parse(ParseFault::RelocationTable))
    ));
}

#[test]
fn unrecognized_sections_are_ignored() {
    let obj = build_object(&[
        Sec { name: "debugstuff", sh_type: SHT_PROGBITS, info: 0, data: vec![1, 2, 3] },
        Sec { name: "license", sh_type: SHT_PROGBITS, info: 0, data: b"MIT\0".to_vec() },
        // A program category without a specific name is not a program.
        Sec { name: "kprobe", sh_type: SHT_PROGBITS, info: 0, data: insns(2) },
    ]);
    let m = Module::parse(&obj, 0).unwrap();
    assert_eq!(m.license, "MIT");
    assert!(m.programs.is_empty());
    assert!(m.maps.is_empty());
}

#[test]
fn from_section_reads_the_reserved_categories() {
    assert!(matches!(ProgramKind::from_section("kprobe"), Ok(ProgramKind::Kprobe)));
    assert!(matches!(ProgramKind::from_section("kretprobe"), Ok(ProgramKind::Kretprobe)));
    assert!(matches!(ProgramKind::from_section("xdp"), Ok(ProgramKind::XDP)));
    assert!(matches!(ProgramKind::from_section("socketfilter"), Ok(ProgramKind::SocketFilter)));
    match ProgramKind::from_section("uprobe") {
        Err(LoadError::Section(s)) => assert_eq!(s, "uprobe"),
        _ => panic!("an unknown category must be refused"),
    }
}

#[test]
fn kretprobe_attaches_with_return_semantics() {
    let obj = build_object(&[Sec {
        name: "kretprobe/do_sys_open",
        sh_type: SHT_PROGBITS,
        info: 0,
        data: insns(2),
    }]);
    let mut m = Module::parse(&obj, 0).unwrap();
    assert!(matches!(m.programs[0].kind, ProgramKind::Kretprobe));
    assert_eq!(m.programs[0].kind.to_prog_type(), PROG_TYPE_KPROBE);
    m.programs[0].load_complete(4, String::new()).unwrap();
    match m.programs[0].attach_probe_request().unwrap() {
        AttachRequest::Kprobe { attach_type, .. } => assert_eq!(attach_type, 1),
        _ => panic!("expected a probe attachment"),
    }
}
